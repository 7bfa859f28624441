use payments_engine::domain::amount::{Amount, MAX_MANTISSA};
use payments_engine::domain::transaction::{Trx, TrxStatus};
use payments_engine::domain::user_account::{Field, UserAccount};
use payments_engine::services::ledger::TrxOutcome;
use payments_engine::services::payment_engine::PaymentsEngine;

fn units(value: i128) -> Amount {
    Amount::new(value, 0).unwrap()
}

fn largest() -> Amount {
    Amount::new(MAX_MANTISSA, 0).unwrap()
}

fn deposit(client: u16, tx: u32, amount: Amount) -> Trx {
    Trx::Deposit { client, tx, amount }
}

fn withdrawal(client: u16, tx: u32, amount: Amount) -> Trx {
    Trx::Withdrawal { client, tx, amount }
}

fn balances(engine: &PaymentsEngine, client: u16) -> (Amount, Amount, Amount, bool) {
    let accounts = engine.get_accounts();
    let account = accounts.iter().find(|account| account.client == client).unwrap();
    (account.available, account.held, account.total, account.locked)
}

#[test]
fn deposit_is_applied() {
    let mut engine = PaymentsEngine::new();
    assert_eq!(engine.process(deposit(1, 1, units(10))), TrxOutcome::Applied);
    assert_eq!(balances(&engine, 1), (units(10), units(0), units(10), false));
    let record = engine.get_transaction(1).unwrap();
    assert_eq!(record.client, 1);
    assert_eq!(record.amount, units(10));
    assert_eq!(record.status, TrxStatus::Normal);
}

#[test]
fn duplicate_id_is_rejected_for_both_kinds() {
    let mut engine = PaymentsEngine::new();
    engine.process(deposit(1, 1, units(10)));
    assert_eq!(engine.process(deposit(1, 1, units(5))), TrxOutcome::DuplicateTransaction);
    assert_eq!(engine.process(withdrawal(1, 1, units(5))), TrxOutcome::DuplicateTransaction);
    assert_eq!(engine.process(deposit(2, 1, units(5))), TrxOutcome::DuplicateTransaction);
    assert_eq!(balances(&engine, 1), (units(10), units(0), units(10), false));
    assert_eq!(engine.get_accounts().len(), 1);
    assert_eq!(engine.history_len(), 1);
}

#[test]
fn withdrawal_beyond_available_is_rejected() {
    let mut engine = PaymentsEngine::new();
    engine.process(deposit(1, 1, units(10)));
    assert_eq!(engine.process(withdrawal(1, 2, units(11))), TrxOutcome::InsufficientFunds);
    assert_eq!(balances(&engine, 1), (units(10), units(0), units(10), false));
    assert!(engine.get_transaction(2).is_none());
    assert_eq!(engine.process(withdrawal(1, 2, units(10))), TrxOutcome::Applied);
    assert_eq!(balances(&engine, 1), (units(0), units(0), units(0), false));
}

#[test]
fn deposit_overflow_names_the_field() {
    let mut engine = PaymentsEngine::new();
    engine.process(deposit(1, 1, largest()));
    assert_eq!(
        engine.process(deposit(1, 2, units(1))),
        TrxOutcome::Overflow(Field::Available)
    );
    assert_eq!(balances(&engine, 1), (largest(), units(0), largest(), false));
    assert!(engine.get_transaction(2).is_none());

    // With the funds held, `available` has room again and `total` has not.
    engine.process(Trx::Dispute { client: 1, tx: 1 });
    assert_eq!(engine.process(deposit(1, 3, units(1))), TrxOutcome::Overflow(Field::Total));
    assert_eq!(balances(&engine, 1), (units(0), largest(), largest(), false));
    assert!(engine.get_transaction(3).is_none());
}

#[test]
fn withdrawal_overflow_names_the_field() {
    // A negative amount is below any balance, so the funds check lets it
    // through; taking it away from the largest balance overflows.
    let mut engine = PaymentsEngine::new();
    engine.process(deposit(1, 1, largest()));
    assert_eq!(
        engine.process(withdrawal(1, 2, units(-1))),
        TrxOutcome::Overflow(Field::Available)
    );
    assert_eq!(balances(&engine, 1), (largest(), units(0), largest(), false));

    let mut engine = PaymentsEngine::new();
    engine.set_account(UserAccount {
        client: 1,
        available: units(0),
        held: largest(),
        total: largest(),
        locked: false,
    });
    assert_eq!(engine.process(withdrawal(1, 2, units(-1))), TrxOutcome::Overflow(Field::Total));
    assert_eq!(balances(&engine, 1), (units(0), largest(), largest(), false));
    assert!(engine.get_transaction(2).is_none());
}

#[test]
fn dispute_family_needs_a_record() {
    let mut engine = PaymentsEngine::new();
    assert_eq!(
        engine.process(Trx::Dispute { client: 1, tx: 1 }),
        TrxOutcome::TransactionNotFound
    );
    assert_eq!(
        engine.process(Trx::Resolve { client: 1, tx: 1 }),
        TrxOutcome::TransactionNotFound
    );
    assert_eq!(
        engine.process(Trx::Chargeback { client: 1, tx: 1 }),
        TrxOutcome::TransactionNotFound
    );
    assert!(engine.get_accounts().is_empty());
}

#[test]
fn dispute_family_needs_the_owner() {
    let mut engine = PaymentsEngine::new();
    engine.process(deposit(1, 1, units(10)));
    engine.process(deposit(2, 2, units(10)));
    assert_eq!(engine.process(Trx::Dispute { client: 2, tx: 1 }), TrxOutcome::ClientMismatch);
    engine.process(Trx::Dispute { client: 1, tx: 1 });
    assert_eq!(engine.process(Trx::Resolve { client: 2, tx: 1 }), TrxOutcome::ClientMismatch);
    assert_eq!(engine.process(Trx::Chargeback { client: 2, tx: 1 }), TrxOutcome::ClientMismatch);
    assert_eq!(balances(&engine, 1), (units(0), units(10), units(10), false));
    assert_eq!(balances(&engine, 2), (units(10), units(0), units(10), false));
    assert_eq!(engine.get_transaction(1).unwrap().status, TrxStatus::UnderDispute);
}

#[test]
fn dispute_walks_the_lifecycle() {
    let mut engine = PaymentsEngine::new();
    engine.process(deposit(1, 1, units(10)));
    assert_eq!(engine.process(Trx::Resolve { client: 1, tx: 1 }), TrxOutcome::NotUnderDispute);
    assert_eq!(engine.process(Trx::Chargeback { client: 1, tx: 1 }), TrxOutcome::NotUnderDispute);
    assert_eq!(engine.get_transaction(1).unwrap().status, TrxStatus::Normal);

    assert_eq!(engine.process(Trx::Dispute { client: 1, tx: 1 }), TrxOutcome::Applied);
    assert_eq!(engine.get_transaction(1).unwrap().status, TrxStatus::UnderDispute);
    assert_eq!(
        engine.process(Trx::Dispute { client: 1, tx: 1 }),
        TrxOutcome::AlreadyUnderDispute
    );

    assert_eq!(engine.process(Trx::Resolve { client: 1, tx: 1 }), TrxOutcome::Applied);
    assert_eq!(engine.get_transaction(1).unwrap().status, TrxStatus::Normal);

    assert_eq!(engine.process(Trx::Dispute { client: 1, tx: 1 }), TrxOutcome::Applied);
    assert_eq!(engine.process(Trx::Chargeback { client: 1, tx: 1 }), TrxOutcome::Applied);
    assert_eq!(engine.get_transaction(1).unwrap().status, TrxStatus::ChargedBack);

    assert_eq!(
        engine.process(Trx::Dispute { client: 1, tx: 1 }),
        TrxOutcome::AlreadyChargedBack
    );
    assert_eq!(engine.process(Trx::Resolve { client: 1, tx: 1 }), TrxOutcome::NotUnderDispute);
    assert_eq!(engine.process(Trx::Chargeback { client: 1, tx: 1 }), TrxOutcome::NotUnderDispute);
    assert_eq!(engine.get_transaction(1).unwrap().status, TrxStatus::ChargedBack);
    assert_eq!(balances(&engine, 1), (units(0), units(0), units(0), true));
}

#[test]
fn dispute_reports_an_overdrawn_account() {
    let mut engine = PaymentsEngine::new();
    engine.process(deposit(1, 1, units(100)));
    engine.process(withdrawal(1, 2, units(80)));
    assert_eq!(
        engine.process(Trx::Dispute { client: 1, tx: 1 }),
        TrxOutcome::AppliedOverdrawn
    );
    assert_eq!(balances(&engine, 1), (units(-80), units(100), units(20), false));

    // Down to exactly zero is not overdrawn.
    let mut engine = PaymentsEngine::new();
    engine.process(deposit(1, 1, units(100)));
    assert_eq!(engine.process(Trx::Dispute { client: 1, tx: 1 }), TrxOutcome::Applied);
}

#[test]
fn dispute_overflow_changes_neither_account_nor_record() {
    // available = -(largest), held = largest: one more unit cannot be held.
    let mut engine = PaymentsEngine::new();
    engine.process(deposit(1, 1, largest()));
    engine.process(withdrawal(1, 2, largest()));
    engine.process(Trx::Dispute { client: 1, tx: 1 });
    engine.process(deposit(1, 3, units(1)));
    let before = balances(&engine, 1);
    assert_eq!(before.1, largest());
    assert_eq!(
        engine.process(Trx::Dispute { client: 1, tx: 3 }),
        TrxOutcome::Overflow(Field::Held)
    );
    assert_eq!(balances(&engine, 1), before);
    assert_eq!(engine.get_transaction(3).unwrap().status, TrxStatus::Normal);

    // available = -(largest): disputing one more unit cannot be taken away.
    let mut engine = PaymentsEngine::new();
    engine.process(deposit(1, 1, units(1)));
    engine.set_account(UserAccount {
        client: 1,
        available: Amount::new(-MAX_MANTISSA, 0).unwrap(),
        held: units(0),
        total: Amount::new(-MAX_MANTISSA, 0).unwrap(),
        locked: false,
    });
    let before = balances(&engine, 1);
    assert_eq!(
        engine.process(Trx::Dispute { client: 1, tx: 1 }),
        TrxOutcome::Overflow(Field::Available)
    );
    assert_eq!(balances(&engine, 1), before);
    assert_eq!(engine.get_transaction(1).unwrap().status, TrxStatus::Normal);
}

#[test]
fn resolve_overflow_changes_neither_account_nor_record() {
    let mut engine = PaymentsEngine::new();
    engine.process(deposit(1, 1, units(100)));
    engine.process(Trx::Dispute { client: 1, tx: 1 });
    let mut account = engine.get_or_create_account(1);
    account.available = largest();
    engine.set_account(account);
    let before = balances(&engine, 1);
    assert_eq!(
        engine.process(Trx::Resolve { client: 1, tx: 1 }),
        TrxOutcome::Overflow(Field::Available)
    );
    assert_eq!(balances(&engine, 1), before);
    assert_eq!(engine.get_transaction(1).unwrap().status, TrxStatus::UnderDispute);

    let mut account = engine.get_or_create_account(1);
    account.available = units(0);
    account.held = Amount::new(-MAX_MANTISSA, 0).unwrap();
    engine.set_account(account);
    let before = balances(&engine, 1);
    assert_eq!(
        engine.process(Trx::Resolve { client: 1, tx: 1 }),
        TrxOutcome::Overflow(Field::Held)
    );
    assert_eq!(balances(&engine, 1), before);
    assert_eq!(engine.get_transaction(1).unwrap().status, TrxStatus::UnderDispute);
}

#[test]
fn chargeback_overflow_changes_neither_account_nor_record() {
    let mut engine = PaymentsEngine::new();
    engine.process(deposit(1, 1, units(100)));
    engine.process(Trx::Dispute { client: 1, tx: 1 });
    let mut account = engine.get_or_create_account(1);
    account.total = Amount::new(-MAX_MANTISSA, 0).unwrap();
    engine.set_account(account);
    let before = balances(&engine, 1);
    assert_eq!(
        engine.process(Trx::Chargeback { client: 1, tx: 1 }),
        TrxOutcome::Overflow(Field::Total)
    );
    assert_eq!(balances(&engine, 1), before);
    assert!(!before.3);
    assert_eq!(engine.get_transaction(1).unwrap().status, TrxStatus::UnderDispute);

    let mut account = engine.get_or_create_account(1);
    account.held = Amount::new(-MAX_MANTISSA, 0).unwrap();
    engine.set_account(account);
    let before = balances(&engine, 1);
    assert_eq!(
        engine.process(Trx::Chargeback { client: 1, tx: 1 }),
        TrxOutcome::Overflow(Field::Held)
    );
    assert_eq!(balances(&engine, 1), before);
    assert_eq!(engine.get_transaction(1).unwrap().status, TrxStatus::UnderDispute);
}

#[test]
fn chargeback_leaves_available_alone() {
    let mut engine = PaymentsEngine::new();
    engine.process(deposit(1, 1, units(100)));
    engine.process(deposit(1, 2, units(40)));
    engine.process(Trx::Dispute { client: 1, tx: 1 });
    assert_eq!(engine.process(Trx::Chargeback { client: 1, tx: 1 }), TrxOutcome::Applied);
    assert_eq!(balances(&engine, 1), (units(40), units(0), units(40), true));
}

#[test]
fn a_withdrawal_can_be_disputed() {
    let mut engine = PaymentsEngine::new();
    engine.process(deposit(1, 1, units(50)));
    engine.process(withdrawal(1, 2, units(40)));
    assert_eq!(
        engine.process(Trx::Dispute { client: 1, tx: 2 }),
        TrxOutcome::AppliedOverdrawn
    );
    assert_eq!(balances(&engine, 1), (units(-30), units(40), units(10), false));
}

#[test]
fn an_evicted_id_can_be_booked_again() {
    let mut engine = PaymentsEngine::with_max_history(Some(1));
    assert_eq!(engine.process(deposit(1, 1, units(10))), TrxOutcome::Applied);
    assert_eq!(engine.process(deposit(1, 2, units(20))), TrxOutcome::Applied);
    assert_eq!(engine.process(deposit(1, 1, units(30))), TrxOutcome::Applied);
    assert_eq!(balances(&engine, 1), (units(60), units(0), units(60), false));
    assert_eq!(engine.history_len(), 1);
    assert_eq!(engine.get_transaction(1).unwrap().amount, units(30));
}

#[test]
fn a_log_of_capacity_zero_holds_one_record() {
    let mut engine = PaymentsEngine::with_max_history(Some(0));
    engine.process(deposit(1, 1, units(10)));
    assert_eq!(engine.history_len(), 1);
    engine.process(deposit(1, 2, units(10)));
    assert_eq!(engine.history_len(), 1);
    assert!(engine.get_transaction(1).is_none());
}

#[test]
fn the_log_never_outgrows_its_capacity() {
    let mut engine = PaymentsEngine::with_max_history(Some(5));
    for tx in 1u32..=40 {
        engine.process(deposit((tx % 3) as u16, tx, units(1)));
        assert!(engine.history_len() <= 5);
    }
    assert_eq!(engine.history_len(), 5);
    for tx in 36u32..=40 {
        assert!(engine.get_transaction(tx).is_some());
    }
    assert!(engine.get_transaction(35).is_none());
}

#[test]
fn balances_add_up_after_every_event() {
    let events = vec![
        deposit(1, 1, units(100)),
        deposit(2, 2, units(50)),
        withdrawal(1, 3, units(30)),
        Trx::Dispute { client: 1, tx: 1 },
        Trx::Dispute { client: 2, tx: 2 },
        withdrawal(2, 4, units(1)),
        Trx::Resolve { client: 2, tx: 2 },
        Trx::Chargeback { client: 1, tx: 1 },
        deposit(1, 5, units(7)),
        Trx::Dispute { client: 1, tx: 3 },
        Trx::Chargeback { client: 1, tx: 3 },
        deposit(1, 5, units(7)),
        Trx::Resolve { client: 3, tx: 9 },
    ];
    let mut engine = PaymentsEngine::new();
    let mut was_locked = false;
    for event in events {
        engine.process(event);
        for account in engine.get_accounts() {
            assert_eq!(account.checked_verify_totals(), Some(true));
            assert_eq!(account.total, account.available.checked_add(account.held).unwrap());
        }
        let locked = balances(&engine, 1).3;
        assert!(locked || !was_locked);
        was_locked = locked;
    }
    assert!(was_locked);
    assert_eq!(balances(&engine, 1), (units(-53), units(0), units(-53), true));
    assert_eq!(balances(&engine, 2), (units(50), units(0), units(50), false));
}

#[test]
fn get_or_create_account_opens_an_account_once() {
    let mut engine = PaymentsEngine::new();
    let account = engine.get_or_create_account(4);
    assert_eq!(account.client, 4);
    assert_eq!(account.total, Amount::zero());
    engine.process(deposit(4, 1, units(3)));
    let account = engine.get_or_create_account(4);
    assert_eq!(account.total, units(3));
    assert_eq!(engine.get_accounts().len(), 1);
}

#[test]
fn get_accounts_lists_clients_in_ascending_order() {
    let mut engine = PaymentsEngine::new();
    let clients = [500u16, 3, 65535, 20, 1];
    let mut tx = 0u32;
    for client in clients {
        tx += 1;
        engine.process(deposit(client, tx, units(client as i128)));
    }
    let listed: Vec<u16> = engine.get_accounts().iter().map(|account| account.client).collect();
    assert_eq!(listed, vec![1, 3, 20, 500, 65535]);
}

#[test]
fn default_engine_has_an_unbounded_log() {
    let mut engine = PaymentsEngine::default();
    for tx in 1u32..=300 {
        engine.process(deposit(1, tx, units(1)));
    }
    assert_eq!(engine.history_len(), 300);
    assert!(engine.get_transaction(1).is_some());
}
