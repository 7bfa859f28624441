//! Monetary amounts: signed decimals `m / 10^e` with a mantissa `m` of at
//! most 96 bits and a scale `e` of at most 28. An amount is held as these two
//! numbers; `rust_decimal` adds, subtracts, compares and formats it.

use vstd::arithmetic::power::pow;
use vstd::prelude::*;

verus! {

/// The largest magnitude of a mantissa, `2^96 - 1`.
pub const MAX_MANTISSA: i128 = 79_228_162_514_264_337_593_543_950_335;

/// The largest scale.
pub const MAX_SCALE: u32 = 28;

/// `10^27`: the least whole number of 28 digits.
pub const TEN_POW_27: i128 = 1_000_000_000_000_000_000_000_000_000;

/// `10^28`: the least whole number of 29 digits.
pub const TEN_POW_28: i128 = 10_000_000_000_000_000_000_000_000_000;

/// What `rust_decimal::Decimal::checked_add` returns for
/// `m1 / 10^s1 + m2 / 10^s2`: the mantissa and scale of the sum, or `None`
/// where the decimal type cannot hold it.
pub uninterp spec fn decimal_sum(m1: i128, s1: u32, m2: i128, s2: u32) -> Option<(i128, u32)>;

/// What `rust_decimal::Decimal::checked_sub` returns for
/// `m1 / 10^s1 - m2 / 10^s2`: the mantissa and scale of the difference, or
/// `None` where the decimal type cannot hold it.
pub uninterp spec fn decimal_difference(m1: i128, s1: u32, m2: i128, s2: u32) -> Option<
    (i128, u32),
>;

/// The text that `rust_decimal::Decimal` displays for `m / 10^s` at a
/// precision of four fractional digits.
pub uninterp spec fn decimal_four_places(m: i128, s: u32) -> Seq<char>;

/// A text that ends in a decimal point and exactly four digits, with at
/// least one character before the point.
pub open spec fn ends_in_four_places(text: Seq<char>) -> bool {
    &&& text.len() >= 6
    &&& text[text.len() - 5] == '.'
    &&& forall|i: int| text.len() - 4 <= i < text.len() ==> '0' <= (#[trigger] text[i]) <= '9'
}

/// A decimal amount `mantissa / 10^scale`.
#[derive(Debug, Clone, Copy)]
pub struct Amount {
    mantissa: i128,
    scale: u32,
}

impl Amount {
    /// Every amount has a mantissa within 96 bits and a scale of at most 28.
    #[verifier::type_invariant]
    pub closed spec fn wf(self) -> bool {
        &&& -MAX_MANTISSA <= self.mantissa <= MAX_MANTISSA
        &&& self.scale <= MAX_SCALE
    }

    /// The mantissa `m` of `m / 10^e`.
    pub closed spec fn spec_mantissa(self) -> int {
        self.mantissa as int
    }

    /// The scale `e` of `m / 10^e`.
    pub closed spec fn spec_scale(self) -> nat {
        self.scale as nat
    }

    /// The amount in units of `10^-28`, the finest grain a decimal can hold:
    /// every amount is a whole number of them, and two amounts are the same
    /// number exactly when their units agree.
    pub open spec fn units(self) -> int {
        self.spec_mantissa() * pow(10, (MAX_SCALE - self.spec_scale()) as nat)
    }

    /// The amount with this mantissa and this scale.
    pub closed spec fn from_parts(mantissa: i128, scale: u32) -> Amount {
        Amount { mantissa, scale }
    }

    /// Zero, at scale 0.
    pub open spec fn spec_zero() -> Amount {
        Amount::from_parts(0, 0)
    }

    /// The sum as the decimal arithmetic computes it, `None` on overflow.
    pub closed spec fn spec_checked_add(self, rhs: Amount) -> Option<Amount> {
        match decimal_sum(self.mantissa, self.scale, rhs.mantissa, rhs.scale) {
            Some((m, s)) => Some(Amount { mantissa: m, scale: s }),
            None => None,
        }
    }

    /// The difference as the decimal arithmetic computes it, `None` on
    /// overflow.
    pub closed spec fn spec_checked_sub(self, rhs: Amount) -> Option<Amount> {
        match decimal_difference(self.mantissa, self.scale, rhs.mantissa, rhs.scale) {
            Some((m, s)) => Some(Amount { mantissa: m, scale: s }),
            None => None,
        }
    }

    /// Whether the amount can be written with four fractional digits: its
    /// integer part has at most 27 digits. A mantissa of 96 bits has at most
    /// 29 digits, so only the scales 0 and 1 can leave the integer part
    /// longer.
    pub open spec fn spec_displayable(self) -> bool {
        ||| self.spec_scale() >= 2
        ||| self.spec_scale() == 1 && -TEN_POW_28 < self.spec_mantissa() < TEN_POW_28
        ||| self.spec_scale() == 0 && -TEN_POW_27 < self.spec_mantissa() < TEN_POW_27
    }

    /// The amount written with exactly four fractional digits.
    pub closed spec fn spec_fixed4(self) -> Seq<char> {
        decimal_four_places(self.mantissa, self.scale)
    }

    /// `mantissa / 10^scale`, or `None` where the mantissa does not fit in
    /// 96 bits or the scale exceeds 28.
    pub fn new(mantissa: i128, scale: u32) -> (r: Option<Amount>)
        ensures
            r is Some <==> -MAX_MANTISSA <= mantissa <= MAX_MANTISSA && scale <= MAX_SCALE,
            r matches Some(amount) ==> {
                &&& amount == Amount::from_parts(mantissa, scale)
                &&& amount.spec_mantissa() == mantissa
                &&& amount.spec_scale() == scale
            },
    {
        if -MAX_MANTISSA <= mantissa && mantissa <= MAX_MANTISSA && scale <= MAX_SCALE {
            Some(Amount { mantissa, scale })
        } else {
            None
        }
    }

    /// Zero, at scale 0.
    pub fn zero() -> (r: Amount)
        ensures
            r == Amount::spec_zero(),
    {
        Amount { mantissa: 0, scale: 0 }
    }

    /// The mantissa `m` of `m / 10^e`.
    pub fn mantissa(&self) -> (m: i128)
        ensures
            m == self.spec_mantissa(),
            -MAX_MANTISSA <= m <= MAX_MANTISSA,
    {
        proof {
            use_type_invariant(self);
        }
        self.mantissa
    }

    /// The scale `e` of `m / 10^e`.
    pub fn scale(&self) -> (s: u32)
        ensures
            s == self.spec_scale(),
            s <= MAX_SCALE,
    {
        proof {
            use_type_invariant(self);
        }
        self.scale
    }

    /// Checked addition: the sum, or `None` on overflow.
    pub fn checked_add(self, rhs: Amount) -> (r: Option<Amount>)
        ensures
            r == self.spec_checked_add(rhs),
    {
        proof {
            use_type_invariant(self);
            use_type_invariant(rhs);
        }
        decimal_checked_add(self, rhs)
    }

    /// Checked subtraction: the difference, or `None` on overflow.
    pub fn checked_sub(self, rhs: Amount) -> (r: Option<Amount>)
        ensures
            r == self.spec_checked_sub(rhs),
    {
        proof {
            use_type_invariant(self);
            use_type_invariant(rhs);
        }
        decimal_checked_sub(self, rhs)
    }

    /// Whether this amount is the smaller number.
    pub fn less_than(self, rhs: Amount) -> (r: bool)
        ensures
            r == (self.units() < rhs.units()),
    {
        proof {
            use_type_invariant(self);
            use_type_invariant(rhs);
        }
        decimal_lt(self, rhs)
    }

    /// Whether this amount is below zero.
    pub fn is_negative(self) -> (r: bool)
        ensures
            r == (self.units() < 0),
    {
        proof {
            Amount::lemma_zero_units();
        }
        self.less_than(Amount::zero())
    }

    /// Whether [`Amount::fixed4`] can write the amount.
    pub fn displayable(&self) -> (r: bool)
        ensures
            r == self.spec_displayable(),
    {
        self.scale >= 2 || (self.scale == 1 && -TEN_POW_28 < self.mantissa && self.mantissa
            < TEN_POW_28) || (self.scale == 0 && -TEN_POW_27 < self.mantissa && self.mantissa
            < TEN_POW_27)
    }

    /// The amount with exactly four fractional digits: further digits are
    /// cut off, missing ones are zeros. The formatter has no room for an
    /// integer part of more than 27 digits.
    pub fn fixed4(&self) -> (text: String)
        requires
            self.spec_displayable(),
        ensures
            text@ == self.spec_fixed4(),
            ends_in_four_places(text@),
    {
        proof {
            use_type_invariant(self);
        }
        decimal_fixed4(*self)
    }

    /// Zero is no units at all.
    pub proof fn lemma_zero_units()
        ensures
            Amount::spec_zero().units() == 0,
            Amount::spec_zero().spec_mantissa() == 0,
            Amount::spec_zero().spec_scale() == 0,
    {
    }
}

/// Two amounts are equal when they are the same number, whatever their scales.
impl PartialEq for Amount {
    fn eq(&self, other: &Amount) -> (r: bool) {
        proof {
            use_type_invariant(self);
            use_type_invariant(other);
        }
        decimal_eq(*self, *other)
    }
}

impl vstd::std_specs::cmp::PartialEqSpecImpl for Amount {
    open spec fn obeys_eq_spec() -> bool {
        true
    }

    open spec fn eq_spec(&self, other: &Amount) -> bool {
        self.units() == other.units()
    }
}

/// Calls `rust_decimal::Decimal::checked_add` on the two amounts. The result
/// is named, not described: `decimal_sum` stands for whatever the crate
/// computes, rounding and overflow included.
#[verifier::external_body]
fn decimal_checked_add(a: Amount, b: Amount) -> (r: Option<Amount>)
    requires
        a.wf(),
        b.wf(),
    ensures
        decimal_sum(a.mantissa, a.scale, b.mantissa, b.scale) == match r {
            Some(s) => Some((s.mantissa, s.scale)),
            None => None,
        },
{
    let x = rust_decimal::Decimal::from_i128_with_scale(a.mantissa, a.scale);
    let y = rust_decimal::Decimal::from_i128_with_scale(b.mantissa, b.scale);
    x.checked_add(y).map(|d| Amount { mantissa: d.mantissa(), scale: d.scale() })
}

/// Calls `rust_decimal::Decimal::checked_sub` on the two amounts. The result
/// is named, not described: `decimal_difference` stands for whatever the
/// crate computes, rounding and overflow included.
#[verifier::external_body]
fn decimal_checked_sub(a: Amount, b: Amount) -> (r: Option<Amount>)
    requires
        a.wf(),
        b.wf(),
    ensures
        decimal_difference(a.mantissa, a.scale, b.mantissa, b.scale) == match r {
            Some(s) => Some((s.mantissa, s.scale)),
            None => None,
        },
{
    let x = rust_decimal::Decimal::from_i128_with_scale(a.mantissa, a.scale);
    let y = rust_decimal::Decimal::from_i128_with_scale(b.mantissa, b.scale);
    x.checked_sub(y).map(|d| Amount { mantissa: d.mantissa(), scale: d.scale() })
}

/// Compares two amounts with `<` of `rust_decimal::Decimal`, which orders
/// decimals as the numbers they denote, whatever their scales.
#[verifier::external_body]
fn decimal_lt(a: Amount, b: Amount) -> (r: bool)
    requires
        a.wf(),
        b.wf(),
    ensures
        r == (a.units() < b.units()),
{
    let x = rust_decimal::Decimal::from_i128_with_scale(a.mantissa, a.scale);
    let y = rust_decimal::Decimal::from_i128_with_scale(b.mantissa, b.scale);
    x < y
}

/// Compares two amounts with `==` of `rust_decimal::Decimal`, which holds of
/// two decimals that denote the same number, whatever their scales.
#[verifier::external_body]
fn decimal_eq(a: Amount, b: Amount) -> (r: bool)
    requires
        a.wf(),
        b.wf(),
    ensures
        r == (a.units() == b.units()),
{
    let x = rust_decimal::Decimal::from_i128_with_scale(a.mantissa, a.scale);
    let y = rust_decimal::Decimal::from_i128_with_scale(b.mantissa, b.scale);
    x == y
}

/// Formats the amount with `rust_decimal::Decimal`'s `Display` at precision
/// four. The text is named, not described, but for its end: the formatter
/// writes the integer part, a point, and the first four fractional digits,
/// with zeros where the amount has fewer. It writes into a buffer of 32
/// characters and panics where the integer part has more than 27 digits;
/// those amounts are left out.
#[verifier::external_body]
fn decimal_fixed4(a: Amount) -> (text: String)
    requires
        a.wf(),
        a.spec_displayable(),
    ensures
        text@ == decimal_four_places(a.mantissa, a.scale),
        ends_in_four_places(text@),
{
    format!("{:.4}", rust_decimal::Decimal::from_i128_with_scale(a.mantissa, a.scale))
}

} // verus!
