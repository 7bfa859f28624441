//! A client's account, and what each kind of event makes of it once the
//! decimal arithmetic has produced the new balances.

use crate::domain::amount::Amount;
use vstd::prelude::*;

verus! {

/// A balance of an account.
#[derive(Debug, Clone, Copy, PartialEq, Eq, Structural)]
pub enum Field {
    Available,
    Held,
    Total,
}

/// A client's balances. `available` can be withdrawn, `held` is frozen by open
/// disputes, and `total` is meant to be their sum; `locked` is set by the
/// first chargeback and never cleared.
#[derive(Debug, Clone, Copy)]
pub struct UserAccount {
    pub client: u16,
    pub available: Amount,
    pub held: Amount,
    pub total: Amount,
    pub locked: bool,
}

impl UserAccount {
    /// The account a client starts with: nothing in it, not locked.
    pub open spec fn spec_new(client_id: u16) -> UserAccount {
        UserAccount {
            client: client_id,
            available: Amount::spec_zero(),
            held: Amount::spec_zero(),
            total: Amount::spec_zero(),
            locked: false,
        }
    }

    /// The balance invariant, as numbers: `total = available + held`.
    pub open spec fn balanced(self) -> bool {
        self.total.units() == self.available.units() + self.held.units()
    }

    /// The account after a deposit or a withdrawal, given the new
    /// `available` and the new `total`; the balance that overflowed where
    /// one of them is `None`, `available` before `total`.
    pub open spec fn spec_booked(self, available: Option<Amount>, total: Option<Amount>) -> Result<
        UserAccount,
        Field,
    > {
        match (available, total) {
            (None, _) => Err(Field::Available),
            (Some(_), None) => Err(Field::Total),
            (Some(available), Some(total)) => Ok(UserAccount { available, total, ..self }),
        }
    }

    /// The account after a dispute, given the new `available` and the new
    /// `held`; the balance that overflowed where one of them is `None`,
    /// `available` before `held`.
    pub open spec fn spec_disputed(self, available: Option<Amount>, held: Option<Amount>) -> Result<
        UserAccount,
        Field,
    > {
        match (available, held) {
            (None, _) => Err(Field::Available),
            (Some(_), None) => Err(Field::Held),
            (Some(available), Some(held)) => Ok(UserAccount { available, held, ..self }),
        }
    }

    /// The account after a resolve, given the new `held` and the new
    /// `available`; the balance that overflowed where one of them is `None`,
    /// `held` before `available`.
    pub open spec fn spec_resolved(self, held: Option<Amount>, available: Option<Amount>) -> Result<
        UserAccount,
        Field,
    > {
        match (held, available) {
            (None, _) => Err(Field::Held),
            (Some(_), None) => Err(Field::Available),
            (Some(held), Some(available)) => Ok(UserAccount { available, held, ..self }),
        }
    }

    /// The account after a chargeback, given the new `held` and the new
    /// `total`: locked, with `available` as it was; the balance that
    /// overflowed where one of them is `None`, `held` before `total`.
    pub open spec fn spec_charged_back(self, held: Option<Amount>, total: Option<Amount>) -> Result<
        UserAccount,
        Field,
    > {
        match (held, total) {
            (None, _) => Err(Field::Held),
            (Some(_), None) => Err(Field::Total),
            (Some(held), Some(total)) => Ok(UserAccount { held, total, locked: true, ..self }),
        }
    }

    /// The account a client starts with: nothing in it, not locked.
    pub fn new(client_id: u16) -> (account: Self)
        ensures
            account == UserAccount::spec_new(client_id),
    {
        UserAccount {
            client: client_id,
            available: Amount::zero(),
            held: Amount::zero(),
            total: Amount::zero(),
            locked: false,
        }
    }

    /// Books a deposit or a withdrawal: the account with the new `available`
    /// and the new `total`, or the first of the two that overflowed.
    pub fn booked(self, available: Option<Amount>, total: Option<Amount>) -> (r: Result<
        UserAccount,
        Field,
    >)
        ensures
            r == self.spec_booked(available, total),
    {
        match (available, total) {
            (None, _) => Err(Field::Available),
            (Some(_), None) => Err(Field::Total),
            (Some(available), Some(total)) => Ok(
                UserAccount {
                    client: self.client,
                    available,
                    held: self.held,
                    total,
                    locked: self.locked,
                },
            ),
        }
    }

    /// Books a dispute: the account with the new `available` and the new
    /// `held`, or the first of the two that overflowed.
    pub fn disputed(self, available: Option<Amount>, held: Option<Amount>) -> (r: Result<
        UserAccount,
        Field,
    >)
        ensures
            r == self.spec_disputed(available, held),
    {
        match (available, held) {
            (None, _) => Err(Field::Available),
            (Some(_), None) => Err(Field::Held),
            (Some(available), Some(held)) => Ok(
                UserAccount {
                    client: self.client,
                    available,
                    held,
                    total: self.total,
                    locked: self.locked,
                },
            ),
        }
    }

    /// Books a resolve: the account with the new `held` and the new
    /// `available`, or the first of the two that overflowed.
    pub fn resolved(self, held: Option<Amount>, available: Option<Amount>) -> (r: Result<
        UserAccount,
        Field,
    >)
        ensures
            r == self.spec_resolved(held, available),
    {
        match (held, available) {
            (None, _) => Err(Field::Held),
            (Some(_), None) => Err(Field::Available),
            (Some(held), Some(available)) => Ok(
                UserAccount {
                    client: self.client,
                    available,
                    held,
                    total: self.total,
                    locked: self.locked,
                },
            ),
        }
    }

    /// Books a chargeback: the account locked, with the new `held` and the
    /// new `total`, or the first of the two that overflowed.
    pub fn charged_back(self, held: Option<Amount>, total: Option<Amount>) -> (r: Result<
        UserAccount,
        Field,
    >)
        ensures
            r == self.spec_charged_back(held, total),
    {
        match (held, total) {
            (None, _) => Err(Field::Held),
            (Some(_), None) => Err(Field::Total),
            (Some(held), Some(total)) => Ok(
                UserAccount {
                    client: self.client,
                    available: self.available,
                    held,
                    total,
                    locked: true,
                },
            ),
        }
    }

    /// Whether `total` is the number that decimal addition gives for
    /// `available + held`. The sum must not overflow;
    /// [`UserAccount::checked_verify_totals`] asks the same without that
    /// demand.
    pub fn verify_totals(&self) -> (ok: bool)
        requires
            self.available.spec_checked_add(self.held) is Some,
        ensures
            ok == (self.total.units() == self.available.spec_checked_add(self.held).unwrap().units()),
    {
        match self.available.checked_add(self.held) {
            Some(sum) => self.total == sum,
            None => false,
        }
    }

    /// [`UserAccount::verify_totals`] where `available + held` can be formed,
    /// `None` where that sum overflows.
    pub fn checked_verify_totals(&self) -> (ok: Option<bool>)
        ensures
            match self.available.spec_checked_add(self.held) {
                Some(sum) => ok == Some(self.total.units() == sum.units()),
                None => ok is None,
            },
    {
        match self.available.checked_add(self.held) {
            Some(_) => Some(self.verify_totals()),
            None => None,
        }
    }

    /// Moving one amount into `available` and `total` alike keeps a balanced
    /// account balanced: a deposit moves the amount in, a withdrawal its
    /// opposite.
    pub proof fn lemma_booked_balanced(self, available: Amount, total: Amount, moved: int)
        requires
            self.balanced(),
            available.units() == self.available.units() + moved,
            total.units() == self.total.units() + moved,
        ensures
            self.spec_booked(Some(available), Some(total)) matches Ok(account)
                && account.balanced(),
    {
    }

    /// Moving one amount from `available` to `held` keeps a balanced account
    /// balanced: a dispute moves the amount, a resolve its opposite.
    pub proof fn lemma_disputed_balanced(self, available: Amount, held: Amount, moved: int)
        requires
            self.balanced(),
            available.units() == self.available.units() - moved,
            held.units() == self.held.units() + moved,
        ensures
            self.spec_disputed(Some(available), Some(held)) matches Ok(account)
                && account.balanced(),
            self.spec_resolved(Some(held), Some(available)) matches Ok(account)
                && account.balanced(),
    {
    }

    /// Taking one amount out of `held` and `total` alike keeps a balanced
    /// account balanced, and locks it.
    pub proof fn lemma_charged_back_balanced(self, held: Amount, total: Amount, moved: int)
        requires
            self.balanced(),
            held.units() == self.held.units() - moved,
            total.units() == self.total.units() - moved,
        ensures
            self.spec_charged_back(Some(held), Some(total)) matches Ok(account)
                && account.balanced() && account.locked && account.available == self.available,
    {
    }
}

} // verus!
