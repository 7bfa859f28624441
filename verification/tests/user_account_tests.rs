use payments_engine::domain::amount::Amount;
use payments_engine::domain::user_account::{Field, UserAccount};
use rust_decimal::Decimal;
use std::str::FromStr;

fn dec(text: &str) -> Amount {
    let decimal = Decimal::from_str(text).unwrap();
    Amount::new(decimal.mantissa(), decimal.scale()).unwrap()
}

#[test]
fn test_new_account() {
    let acc = UserAccount::new(1);
    assert_eq!(acc.client, 1);
    assert_eq!(acc.available, Amount::zero());
    assert_eq!(acc.held, Amount::zero());
    assert_eq!(acc.total, Amount::zero());
    assert!(!acc.locked);
}

#[test]
fn test_totals_invariant() {
    let acc = UserAccount {
        client: 1,
        available: dec("10.5"),
        held: dec("5.25"),
        total: dec("15.75"),
        locked: false,
    };
    assert!(acc.verify_totals());
}

#[test]
fn test_totals_invariant_violated() {
    let acc = UserAccount {
        client: 1,
        available: dec("10.5"),
        held: dec("5.25"),
        total: dec("20.0"),
        locked: false,
    };
    assert!(!acc.verify_totals());
}

#[test]
fn checked_verify_totals_reports_an_overflowing_sum() {
    let max = Amount::new(79_228_162_514_264_337_593_543_950_335, 0).unwrap();
    let acc = UserAccount {
        client: 1,
        available: max,
        held: max,
        total: max,
        locked: false,
    };
    assert_eq!(acc.checked_verify_totals(), None);

    let acc = UserAccount {
        client: 1,
        available: dec("1.5"),
        held: dec("2.25"),
        total: dec("3.750"),
        locked: false,
    };
    assert_eq!(acc.checked_verify_totals(), Some(true));

    let acc = UserAccount {
        client: 1,
        available: dec("1.5"),
        held: dec("2.25"),
        total: dec("3.7501"),
        locked: false,
    };
    assert_eq!(acc.checked_verify_totals(), Some(false));
}

#[test]
fn booked_takes_the_new_available_and_total() {
    let account = UserAccount {
        client: 3,
        available: dec("1.0"),
        held: dec("2.0"),
        total: dec("3.0"),
        locked: true,
    };
    let updated = account.booked(Some(dec("5.0")), Some(dec("7.0"))).unwrap();
    assert_eq!(updated.client, 3);
    assert_eq!(updated.available, dec("5.0"));
    assert_eq!(updated.held, dec("2.0"));
    assert_eq!(updated.total, dec("7.0"));
    assert!(updated.locked);
    assert_eq!(account.booked(None, Some(dec("7.0"))).unwrap_err(), Field::Available);
    assert_eq!(account.booked(Some(dec("5.0")), None).unwrap_err(), Field::Total);
    assert_eq!(account.booked(None, None).unwrap_err(), Field::Available);
}

#[test]
fn disputed_takes_the_new_available_and_held() {
    let account = UserAccount {
        client: 3,
        available: dec("1.0"),
        held: dec("2.0"),
        total: dec("3.0"),
        locked: false,
    };
    let updated = account.disputed(Some(dec("-4.0")), Some(dec("7.0"))).unwrap();
    assert_eq!(updated.available, dec("-4.0"));
    assert_eq!(updated.held, dec("7.0"));
    assert_eq!(updated.total, dec("3.0"));
    assert!(!updated.locked);
    assert_eq!(account.disputed(None, Some(dec("7.0"))).unwrap_err(), Field::Available);
    assert_eq!(account.disputed(Some(dec("5.0")), None).unwrap_err(), Field::Held);
    assert_eq!(account.disputed(None, None).unwrap_err(), Field::Available);
}

#[test]
fn resolved_takes_the_new_held_and_available() {
    let account = UserAccount {
        client: 3,
        available: dec("1.0"),
        held: dec("2.0"),
        total: dec("3.0"),
        locked: false,
    };
    let updated = account.resolved(Some(dec("0.0")), Some(dec("3.0"))).unwrap();
    assert_eq!(updated.available, dec("3.0"));
    assert_eq!(updated.held, dec("0.0"));
    assert_eq!(updated.total, dec("3.0"));
    assert!(!updated.locked);
    assert_eq!(account.resolved(None, Some(dec("3.0"))).unwrap_err(), Field::Held);
    assert_eq!(account.resolved(Some(dec("0.0")), None).unwrap_err(), Field::Available);
    assert_eq!(account.resolved(None, None).unwrap_err(), Field::Held);
}

#[test]
fn charged_back_takes_the_new_held_and_total_and_locks() {
    let account = UserAccount {
        client: 3,
        available: dec("1.0"),
        held: dec("2.0"),
        total: dec("3.0"),
        locked: false,
    };
    let updated = account.charged_back(Some(dec("0.0")), Some(dec("1.0"))).unwrap();
    assert_eq!(updated.available, dec("1.0"));
    assert_eq!(updated.held, dec("0.0"));
    assert_eq!(updated.total, dec("1.0"));
    assert!(updated.locked);
    assert_eq!(account.charged_back(None, Some(dec("1.0"))).unwrap_err(), Field::Held);
    assert_eq!(account.charged_back(Some(dec("0.0")), None).unwrap_err(), Field::Total);
    assert_eq!(account.charged_back(None, None).unwrap_err(), Field::Held);
}
