//! The ledger as a mathematical value, and what each event does to it. The
//! engine is held to this model; the laws of the ledger are proved of it.

use crate::domain::amount::Amount;
use crate::domain::transaction::{Trx, TrxStatus, TxRecord};
use crate::domain::user_account::{Field, UserAccount};
use crate::services::account_store::{keyed_by_client, no_accounts, opened};
use crate::services::tx_log::{
    distinct_keys, has_key, lemma_lookup_make_room, lemma_lookup_stored, lemma_make_room,
    lemma_stored, lemma_with_status, lookup, make_room, position, stored, with_status,
    within_capacity,
};
use vstd::prelude::*;

verus! {

/// What became of an event. Only the two `Applied` outcomes change a balance,
/// a record or a lock.
#[derive(Debug, Clone, Copy, PartialEq, Eq, Structural)]
pub enum TrxOutcome {
    /// The event took effect.
    Applied,
    /// A dispute took effect and left `available` below zero.
    AppliedOverdrawn,
    /// A deposit or withdrawal named a transaction id that the log holds.
    DuplicateTransaction,
    /// A withdrawal asked for more than is available.
    InsufficientFunds,
    /// The new value of this balance cannot be held by the decimal type.
    Overflow(Field),
    /// The log holds no record under the transaction id.
    TransactionNotFound,
    /// The record belongs to another client.
    ClientMismatch,
    /// A dispute named a record that was charged back.
    AlreadyChargedBack,
    /// A dispute named a record that is under dispute.
    AlreadyUnderDispute,
    /// A resolve or chargeback named a record that is not under dispute.
    NotUnderDispute,
}

impl TrxOutcome {
    /// Whether the event took effect.
    pub open spec fn applied(self) -> bool {
        self == TrxOutcome::Applied || self == TrxOutcome::AppliedOverdrawn
    }
}

/// The state of the ledger: the accounts by client id, the log's records
/// with the oldest first, and the log's capacity.
pub struct Ledger {
    pub accounts: Map<u16, UserAccount>,
    pub log: Seq<(u32, TxRecord)>,
    pub capacity: Option<usize>,
}

/// The sum is formed without rounding, where it is formed at all.
pub open spec fn exact_sum(a: Amount, b: Amount) -> bool {
    a.spec_checked_add(b) matches Some(sum) ==> sum.units() == a.units() + b.units()
}

/// The difference is formed without rounding, where it is formed at all.
pub open spec fn exact_difference(a: Amount, b: Amount) -> bool {
    a.spec_checked_sub(b) matches Some(difference) ==> difference.units() == a.units() - b.units()
}

impl Ledger {
    /// A ledger without accounts or records.
    pub open spec fn empty(capacity: Option<usize>) -> Ledger {
        Ledger { accounts: no_accounts(), log: Seq::empty(), capacity }
    }

    /// What holds of every ledger the engine reaches: no transaction id is
    /// recorded twice, the log is within its capacity, every account is kept
    /// under its own client id, and every record's client has an account.
    pub open spec fn wf(self) -> bool {
        &&& distinct_keys(self.log)
        &&& within_capacity(self.log.len(), self.capacity)
        &&& keyed_by_client(self.accounts)
        &&& forall|i: int|
            0 <= i < self.log.len() ==> self.accounts.contains_key((#[trigger] self.log[i]).1.client)
    }

    /// The ledger once the client has an account.
    pub open spec fn touched(self, client: u16) -> Ledger {
        Ledger { accounts: opened(self.accounts, client), ..self }
    }

    /// The ledger once an accepted deposit or withdrawal has been booked:
    /// the account takes its new balances and the record enters the log.
    pub open spec fn booked(self, account: UserAccount, tx: u32, record: TxRecord) -> Ledger {
        Ledger {
            accounts: self.accounts.insert(account.client, account),
            log: stored(make_room(self.log, self.capacity), tx, record),
            ..self
        }
    }

    /// The ledger once a dispute, resolve or chargeback has been settled: the
    /// account takes its new balances and the record its new status.
    pub open spec fn settled(self, account: UserAccount, tx: u32, status: TrxStatus) -> Ledger {
        Ledger {
            accounts: self.accounts.insert(account.client, account),
            log: with_status(self.log, tx, status),
            ..self
        }
    }

    /// A deposit credits `available` and `total`. It is rejected where the
    /// id is already recorded or a new balance overflows; the client has an
    /// account from then on unless the id was a duplicate.
    pub open spec fn deposit(self, client: u16, tx: u32, amount: Amount) -> (Ledger, TrxOutcome) {
        if has_key(self.log, tx) {
            (self, TrxOutcome::DuplicateTransaction)
        } else {
            let touched = self.touched(client);
            let account = touched.accounts[client];
            match account.spec_booked(
                account.available.spec_checked_add(amount),
                account.total.spec_checked_add(amount),
            ) {
                Err(field) => (touched, TrxOutcome::Overflow(field)),
                Ok(updated) => (
                    touched.booked(
                        updated,
                        tx,
                        TxRecord { client, amount, status: TrxStatus::Normal },
                    ),
                    TrxOutcome::Applied,
                ),
            }
        }
    }

    /// A withdrawal debits `available` and `total`. It is rejected where the
    /// id is already recorded, where `available` is less than the amount, or
    /// where a new balance overflows; the client has an account from then on
    /// unless the id was a duplicate.
    pub open spec fn withdrawal(self, client: u16, tx: u32, amount: Amount) -> (
        Ledger,
        TrxOutcome,
    ) {
        if has_key(self.log, tx) {
            (self, TrxOutcome::DuplicateTransaction)
        } else {
            let touched = self.touched(client);
            let account = touched.accounts[client];
            if account.available.units() < amount.units() {
                (touched, TrxOutcome::InsufficientFunds)
            } else {
                match account.spec_booked(
                    account.available.spec_checked_sub(amount),
                    account.total.spec_checked_sub(amount),
                ) {
                    Err(field) => (touched, TrxOutcome::Overflow(field)),
                    Ok(updated) => (
                        touched.booked(
                            updated,
                            tx,
                            TxRecord { client, amount, status: TrxStatus::Normal },
                        ),
                        TrxOutcome::Applied,
                    ),
                }
            }
        }
    }

    /// Why a dispute, resolve or chargeback cannot even be tried: the record
    /// is missing or belongs to another client. `None` where it can.
    pub open spec fn unreachable_record(self, client: u16, tx: u32) -> Option<TrxOutcome> {
        match lookup(self.log, tx) {
            None => Some(TrxOutcome::TransactionNotFound),
            Some(record) => if record.client != client {
                Some(TrxOutcome::ClientMismatch)
            } else {
                None
            },
        }
    }

    /// A dispute moves the record's amount from `available` to `held` and
    /// puts the record under dispute. `available` may fall below zero. It is
    /// rejected where the record is missing, belongs to another client, is
    /// not in its normal state, or a new balance overflows.
    pub open spec fn dispute(self, client: u16, tx: u32) -> (Ledger, TrxOutcome) {
        match self.unreachable_record(client, tx) {
            Some(rejection) => (self, rejection),
            None => {
                let record = lookup(self.log, tx).unwrap();
                let account = self.accounts[client];
                match record.status {
                    TrxStatus::ChargedBack => (self, TrxOutcome::AlreadyChargedBack),
                    TrxStatus::UnderDispute => (self, TrxOutcome::AlreadyUnderDispute),
                    TrxStatus::Normal => match account.spec_disputed(
                        account.available.spec_checked_sub(record.amount),
                        account.held.spec_checked_add(record.amount),
                    ) {
                        Err(field) => (self, TrxOutcome::Overflow(field)),
                        Ok(updated) => (
                            self.settled(updated, tx, TrxStatus::UnderDispute),
                            if updated.available.units() < 0 {
                                TrxOutcome::AppliedOverdrawn
                            } else {
                                TrxOutcome::Applied
                            },
                        ),
                    },
                }
            },
        }
    }

    /// A resolve moves the record's amount from `held` back to `available`
    /// and returns the record to its normal state. It is rejected where the
    /// record is missing, belongs to another client, is not under dispute, or
    /// a new balance overflows.
    pub open spec fn resolve(self, client: u16, tx: u32) -> (Ledger, TrxOutcome) {
        match self.unreachable_record(client, tx) {
            Some(rejection) => (self, rejection),
            None => {
                let record = lookup(self.log, tx).unwrap();
                let account = self.accounts[client];
                if record.status != TrxStatus::UnderDispute {
                    (self, TrxOutcome::NotUnderDispute)
                } else {
                    match account.spec_resolved(
                        account.held.spec_checked_sub(record.amount),
                        account.available.spec_checked_add(record.amount),
                    ) {
                        Err(field) => (self, TrxOutcome::Overflow(field)),
                        Ok(updated) => (
                            self.settled(updated, tx, TrxStatus::Normal),
                            TrxOutcome::Applied,
                        ),
                    }
                }
            },
        }
    }

    /// A chargeback takes the record's amount out of `held` and `total`,
    /// leaves `available` as it is, locks the account and marks the record
    /// charged back for good. It is rejected where the record is missing,
    /// belongs to another client, is not under dispute, or a new balance
    /// overflows.
    pub open spec fn chargeback(self, client: u16, tx: u32) -> (Ledger, TrxOutcome) {
        match self.unreachable_record(client, tx) {
            Some(rejection) => (self, rejection),
            None => {
                let record = lookup(self.log, tx).unwrap();
                let account = self.accounts[client];
                if record.status != TrxStatus::UnderDispute {
                    (self, TrxOutcome::NotUnderDispute)
                } else {
                    match account.spec_charged_back(
                        account.held.spec_checked_sub(record.amount),
                        account.total.spec_checked_sub(record.amount),
                    ) {
                        Err(field) => (self, TrxOutcome::Overflow(field)),
                        Ok(updated) => (
                            self.settled(updated, tx, TrxStatus::ChargedBack),
                            TrxOutcome::Applied,
                        ),
                    }
                }
            },
        }
    }

    /// The ledger after an event, and what became of the event.
    pub open spec fn apply(self, trx: Trx) -> (Ledger, TrxOutcome) {
        match trx {
            Trx::Deposit { client, tx, amount } => self.deposit(client, tx, amount),
            Trx::Withdrawal { client, tx, amount } => self.withdrawal(client, tx, amount),
            Trx::Dispute { client, tx } => self.dispute(client, tx),
            Trx::Resolve { client, tx } => self.resolve(client, tx),
            Trx::Chargeback { client, tx } => self.chargeback(client, tx),
        }
    }
}

impl Ledger {
    /// Every account's `total` is the sum of its `available` and `held`.
    pub open spec fn balanced(self) -> bool {
        forall|client: u16| #[trigger]
            self.accounts.contains_key(client) ==> self.accounts[client].balanced()
    }

    /// Whether the decimal arithmetic forms every sum and difference of the
    /// event without rounding. Decimals of one scale whose results stay
    /// within 96 bits are added and subtracted so; at the edge of the range
    /// the arithmetic rounds to a coarser scale instead.
    pub open spec fn computes_exactly(self, trx: Trx) -> bool {
        match trx {
            Trx::Deposit { client, tx, amount } => {
                let account = self.touched(client).accounts[client];
                exact_sum(account.available, amount) && exact_sum(account.total, amount)
            },
            Trx::Withdrawal { client, tx, amount } => {
                let account = self.touched(client).accounts[client];
                exact_difference(account.available, amount) && exact_difference(
                    account.total,
                    amount,
                )
            },
            Trx::Dispute { client, tx } => match lookup(self.log, tx) {
                Some(record) => exact_difference(self.accounts[client].available, record.amount)
                    && exact_sum(self.accounts[client].held, record.amount),
                None => true,
            },
            Trx::Resolve { client, tx } => match lookup(self.log, tx) {
                Some(record) => exact_difference(self.accounts[client].held, record.amount)
                    && exact_sum(self.accounts[client].available, record.amount),
                None => true,
            },
            Trx::Chargeback { client, tx } => match lookup(self.log, tx) {
                Some(record) => exact_difference(self.accounts[client].held, record.amount)
                    && exact_difference(self.accounts[client].total, record.amount),
                None => true,
            },
        }
    }

    /// Whether the event is a deposit or a withdrawal: the two that are
    /// recorded.
    pub open spec fn books(trx: Trx) -> bool {
        trx is Deposit || trx is Withdrawal
    }

    /// Opening an account keeps the ledger well-formed.
    pub proof fn lemma_touched_well_formed(self, client: u16)
        requires
            self.wf(),
        ensures
            self.touched(client).wf(),
            self.touched(client).accounts.contains_key(client),
            self.touched(client).accounts[client].client == client,
    {
        let after = self.touched(client);
        assert forall|i: int| 0 <= i < after.log.len() implies after.accounts.contains_key(
            (#[trigger] after.log[i]).1.client,
        ) by {
            assert(self.accounts.contains_key(self.log[i].1.client));
        }
    }

    /// Booking a record for an account's own client keeps the ledger
    /// well-formed.
    pub proof fn lemma_booked_well_formed(self, account: UserAccount, tx: u32, record: TxRecord)
        requires
            self.wf(),
            record.client == account.client,
        ensures
            self.booked(account, tx, record).wf(),
    {
        let after = self.booked(account, tx, record);
        let room = make_room(self.log, self.capacity);
        lemma_make_room(self.log, self.capacity);
        lemma_stored(room, tx, record);
        assert forall|i: int| 0 <= i < after.log.len() implies after.accounts.contains_key(
            (#[trigger] after.log[i]).1.client,
        ) by {
            if has_key(room, tx) {
                if i != position(room, tx) {
                    assert(after.log[i] == room[i]);
                }
            } else if i < room.len() {
                assert(after.log[i] == room[i]);
            }
            if i < room.len() {
                if room != self.log {
                    assert(room[i] == self.log[i + 1]);
                }
                assert(self.accounts.contains_key(room[i].1.client));
            }
        }
    }

    /// Settling a record keeps the ledger well-formed.
    pub proof fn lemma_settled_well_formed(self, account: UserAccount, tx: u32, status: TrxStatus)
        requires
            self.wf(),
        ensures
            self.settled(account, tx, status).wf(),
    {
        let after = self.settled(account, tx, status);
        lemma_with_status(self.log, tx, status, tx);
        assert forall|i: int| 0 <= i < after.log.len() implies after.accounts.contains_key(
            (#[trigger] after.log[i]).1.client,
        ) by {
            assert(after.log[i].1.client == self.log[i].1.client);
            assert(self.accounts.contains_key(self.log[i].1.client));
        }
    }

    /// Every event leaves a well-formed ledger well-formed, with the
    /// capacity it had.
    pub proof fn lemma_apply_keeps_well_formed(self, trx: Trx)
        requires
            self.wf(),
        ensures
            self.apply(trx).0.wf(),
            self.apply(trx).0.capacity == self.capacity,
    {
        match trx {
            Trx::Deposit { client, tx, amount } => {
                self.lemma_touched_well_formed(client);
                let touched = self.touched(client);
                let account = touched.accounts[client];
                let record = TxRecord { client, amount, status: TrxStatus::Normal };
                if self.apply(trx).1.applied() {
                    let available = account.available.spec_checked_add(amount).unwrap();
                    let total = account.total.spec_checked_add(amount).unwrap();
                    touched.lemma_booked_well_formed(
                        UserAccount { available, total, ..account },
                        tx,
                        record,
                    );
                }
            },
            Trx::Withdrawal { client, tx, amount } => {
                self.lemma_touched_well_formed(client);
                let touched = self.touched(client);
                let account = touched.accounts[client];
                let record = TxRecord { client, amount, status: TrxStatus::Normal };
                if self.apply(trx).1.applied() {
                    let available = account.available.spec_checked_sub(amount).unwrap();
                    let total = account.total.spec_checked_sub(amount).unwrap();
                    touched.lemma_booked_well_formed(
                        UserAccount { available, total, ..account },
                        tx,
                        record,
                    );
                }
            },
            Trx::Dispute { client, tx } => {
                if self.apply(trx).1.applied() {
                    let record = lookup(self.log, tx).unwrap();
                    let account = self.accounts[client];
                    let available = account.available.spec_checked_sub(record.amount).unwrap();
                    let held = account.held.spec_checked_add(record.amount).unwrap();
                    self.lemma_settled_well_formed(
                        UserAccount { available, held, ..account },
                        tx,
                        TrxStatus::UnderDispute,
                    );
                }
            },
            Trx::Resolve { client, tx } => {
                if self.apply(trx).1.applied() {
                    let record = lookup(self.log, tx).unwrap();
                    let account = self.accounts[client];
                    let held = account.held.spec_checked_sub(record.amount).unwrap();
                    let available = account.available.spec_checked_add(record.amount).unwrap();
                    self.lemma_settled_well_formed(
                        UserAccount { available, held, ..account },
                        tx,
                        TrxStatus::Normal,
                    );
                }
            },
            Trx::Chargeback { client, tx } => {
                if self.apply(trx).1.applied() {
                    let record = lookup(self.log, tx).unwrap();
                    let account = self.accounts[client];
                    let held = account.held.spec_checked_sub(record.amount).unwrap();
                    let total = account.total.spec_checked_sub(record.amount).unwrap();
                    self.lemma_settled_well_formed(
                        UserAccount { held, total, locked: true, ..account },
                        tx,
                        TrxStatus::ChargedBack,
                    );
                }
            },
        }
    }
}

impl Ledger {
    /// The balance law: where every account's `total` is the sum of its
    /// `available` and `held` before an event, and the event's arithmetic is
    /// exact, the same holds of every account after it.
    pub proof fn lemma_balance_preserved(self, trx: Trx)
        requires
            self.wf(),
            self.balanced(),
            self.computes_exactly(trx),
        ensures
            self.apply(trx).0.balanced(),
    {
        Amount::lemma_zero_units();
        let after = self.apply(trx).0;
        assert forall|c: u16| #[trigger] after.accounts.contains_key(c) implies after.accounts[c]
            .balanced() by {
            if self.accounts.contains_key(c) {
                assert(self.accounts[c].balanced());
            }
            if self.accounts.contains_key(trx.client()) {
                assert(self.accounts[trx.client()].balanced());
            }
        }
    }

    /// The rollback law: an event that is rejected, for an overflow or for
    /// any other reason, changes no record and no field of any account. The
    /// one trace it can leave is an empty account for its client, where a
    /// deposit or withdrawal with a fresh id named a client not seen before.
    pub proof fn lemma_rejected_changes_nothing(self, trx: Trx)
        requires
            !self.apply(trx).1.applied(),
        ensures
            self.apply(trx).0.log == self.log,
            self.apply(trx).0.capacity == self.capacity,
            self.apply(trx).0.accounts == self.accounts || (Ledger::books(trx) && !has_key(
                self.log,
                trx.tx(),
            ) && !self.accounts.contains_key(trx.client()) && self.apply(trx).0.accounts
                == self.accounts.insert(trx.client(), UserAccount::spec_new(trx.client()))),
            forall|c: u16| #[trigger]
                self.accounts.contains_key(c) ==> self.apply(trx).0.accounts.contains_key(c)
                    && self.apply(trx).0.accounts[c] == self.accounts[c],
    {
    }

    /// The lifecycle law: under any event a record keeps its client and its
    /// amount, and its status stays or takes one step of the dispute
    /// lifecycle, so that a record charged back stays so. A record enters
    /// the log only with the deposit or withdrawal that it records, in its
    /// normal state, and leaves it only as the oldest record of a bounded log,
    /// making room for a new one.
    pub proof fn lemma_status_follows_lifecycle(self, trx: Trx, tx: u32)
        requires
            self.wf(),
        ensures
            match (lookup(self.log, tx), lookup(self.apply(trx).0.log, tx)) {
                (Some(before), Some(now)) => {
                    &&& now.client == before.client
                    &&& now.amount == before.amount
                    &&& (now.status == before.status || before.status.may_become(now.status))
                },
                (None, Some(now)) => now.status == TrxStatus::Normal && Ledger::books(trx)
                    && trx.tx() == tx,
                (Some(_), None) => {
                    &&& Ledger::books(trx)
                    &&& self.apply(trx).1.applied()
                    &&& self.capacity is Some
                    &&& self.log[0].0 == tx
                },
                (None, None) => true,
            },
    {
        if self.apply(trx).1.applied() {
            match trx {
                Trx::Deposit { client, tx: booked_tx, amount } => {
                    self.lemma_lookup_after_booking(client, booked_tx, amount, tx);
                },
                Trx::Withdrawal { client, tx: booked_tx, amount } => {
                    self.lemma_lookup_after_booking(client, booked_tx, amount, tx);
                },
                Trx::Dispute { client, tx: settled_tx } => {
                    lemma_with_status(self.log, settled_tx, TrxStatus::UnderDispute, tx);
                },
                Trx::Resolve { client, tx: settled_tx } => {
                    lemma_with_status(self.log, settled_tx, TrxStatus::Normal, tx);
                },
                Trx::Chargeback { client, tx: settled_tx } => {
                    lemma_with_status(self.log, settled_tx, TrxStatus::ChargedBack, tx);
                },
            }
        }
    }

    /// What the log holds under an id once a record with a fresh id has been
    /// booked: the new record under its id; under another id what was there,
    /// unless it was the oldest and had to make room.
    pub proof fn lemma_lookup_after_booking(self, client: u16, booked_tx: u32, amount: Amount, tx: u32)
        requires
            self.wf(),
            !has_key(self.log, booked_tx),
        ensures
            ({
                let record = TxRecord { client, amount, status: TrxStatus::Normal };
                let log = stored(make_room(self.log, self.capacity), booked_tx, record);
                &&& lookup(log, booked_tx) == Some(record)
                &&& tx != booked_tx && has_key(log, tx) ==> has_key(self.log, tx) && lookup(log, tx)
                    == lookup(self.log, tx)
                &&& tx != booked_tx && self.capacity is None ==> lookup(log, tx) == lookup(
                    self.log,
                    tx,
                )
                &&& has_key(self.log, tx) && !has_key(log, tx) ==> self.capacity is Some
                    && self.log[0].0 == tx
            }),
    {
        let record = TxRecord { client, amount, status: TrxStatus::Normal };
        let room = make_room(self.log, self.capacity);
        lemma_make_room(self.log, self.capacity);
        lemma_stored(room, booked_tx, record);
        lemma_lookup_make_room(self.log, self.capacity, tx);
        if tx != booked_tx {
            lemma_lookup_stored(room, booked_tx, record, tx);
        }
    }

    /// The duplicate law, first half: a deposit or withdrawal whose id the
    /// log holds is rejected as a duplicate and changes nothing.
    pub proof fn lemma_recorded_id_is_rejected(self, trx: Trx)
        requires
            Ledger::books(trx),
            has_key(self.log, trx.tx()),
        ensures
            self.apply(trx) == (self, TrxOutcome::DuplicateTransaction),
    {
    }

    /// The duplicate law, second half: a deposit or withdrawal that takes
    /// effect had a fresh id, and is recorded under it from then on.
    pub proof fn lemma_applied_is_recorded(self, trx: Trx)
        requires
            self.wf(),
            Ledger::books(trx),
            self.apply(trx).1.applied(),
        ensures
            !has_key(self.log, trx.tx()),
            has_key(self.apply(trx).0.log, trx.tx()),
            lookup(self.apply(trx).0.log, trx.tx()) matches Some(record) && record.client
                == trx.client() && record.status == TrxStatus::Normal,
    {
        match trx {
            Trx::Deposit { client, tx, amount } => {
                self.lemma_lookup_after_booking(client, tx, amount, tx);
            },
            Trx::Withdrawal { client, tx, amount } => {
                self.lemma_lookup_after_booking(client, tx, amount, tx);
            },
            _ => {},
        }
    }

    /// A log without a capacity forgets nothing: an id it holds, it holds
    /// after any event.
    pub proof fn lemma_unbounded_log_keeps_ids(self, trx: Trx, tx: u32)
        requires
            self.wf(),
            self.capacity is None,
            has_key(self.log, tx),
        ensures
            has_key(self.apply(trx).0.log, tx),
    {
        self.lemma_status_follows_lifecycle(trx, tx);
        if self.apply(trx).1.applied() {
            match trx {
                Trx::Deposit { client, tx: booked_tx, amount } => {
                    self.lemma_lookup_after_booking(client, booked_tx, amount, tx);
                },
                Trx::Withdrawal { client, tx: booked_tx, amount } => {
                    self.lemma_lookup_after_booking(client, booked_tx, amount, tx);
                },
                Trx::Dispute { client, tx: settled_tx } => {
                    lemma_with_status(self.log, settled_tx, TrxStatus::UnderDispute, tx);
                },
                Trx::Resolve { client, tx: settled_tx } => {
                    lemma_with_status(self.log, settled_tx, TrxStatus::Normal, tx);
                },
                Trx::Chargeback { client, tx: settled_tx } => {
                    lemma_with_status(self.log, settled_tx, TrxStatus::ChargedBack, tx);
                },
            }
        }
    }

    /// The log bound: a log made with a capacity of at least one never holds
    /// more records than that.
    pub proof fn lemma_log_within_capacity(self, trx: Trx, capacity: usize)
        requires
            self.wf(),
            self.capacity == Some(capacity),
            capacity >= 1,
        ensures
            self.log.len() <= capacity,
            self.apply(trx).0.log.len() <= capacity,
    {
        self.lemma_apply_keeps_well_formed(trx);
    }

    /// The lock law: no event removes an account, and no event unlocks one.
    pub proof fn lemma_locked_stays_locked(self, trx: Trx, client: u16)
        requires
            self.wf(),
            self.accounts.contains_key(client),
        ensures
            self.apply(trx).0.accounts.contains_key(client),
            self.accounts[client].locked ==> self.apply(trx).0.accounts[client].locked,
            self.apply(trx).0.accounts[client].client == self.accounts[client].client,
    {
    }
}

impl Ledger {
    /// The ledger after a sequence of events, applied in their order.
    pub open spec fn run(self, events: Seq<Trx>) -> Ledger
        decreases events.len(),
    {
        if events.len() == 0 {
            self
        } else {
            self.apply(events[0]).0.run(events.skip(1))
        }
    }

    /// How many events of the sequence are deposits or withdrawals with the
    /// given id that take effect.
    pub open spec fn bookings(self, events: Seq<Trx>, tx: u32) -> nat
        decreases events.len(),
    {
        if events.len() == 0 {
            0
        } else {
            let first: nat = if Ledger::books(events[0]) && events[0].tx() == tx && self.apply(
                events[0],
            ).1.applied() {
                1
            } else {
                0
            };
            first + self.apply(events[0]).0.bookings(events.skip(1), tx)
        }
    }

    /// A well-formed ledger stays well-formed through any sequence of
    /// events, and keeps its capacity.
    pub proof fn lemma_run_keeps_well_formed(self, events: Seq<Trx>)
        requires
            self.wf(),
        ensures
            self.run(events).wf(),
            self.run(events).capacity == self.capacity,
        decreases events.len(),
    {
        if events.len() > 0 {
            self.lemma_apply_keeps_well_formed(events[0]);
            self.apply(events[0]).0.lemma_run_keeps_well_formed(events.skip(1));
        }
    }

    /// Whether the decimal arithmetic is exact for every event of the
    /// sequence, each taken on the ledger that the events before it leave.
    pub open spec fn run_computes_exactly(self, events: Seq<Trx>) -> bool
        decreases events.len(),
    {
        events.len() > 0 ==> self.computes_exactly(events[0]) && self.apply(
            events[0],
        ).0.run_computes_exactly(events.skip(1))
    }

    /// The balance law over sequences: a ledger whose accounts add up still
    /// has them add up after any sequence of events whose arithmetic is
    /// exact.
    pub proof fn lemma_run_balance_preserved(self, events: Seq<Trx>)
        requires
            self.wf(),
            self.balanced(),
            self.run_computes_exactly(events),
        ensures
            self.run(events).balanced(),
        decreases events.len(),
    {
        if events.len() > 0 {
            self.lemma_apply_keeps_well_formed(events[0]);
            self.lemma_balance_preserved(events[0]);
            self.apply(events[0]).0.lemma_run_balance_preserved(events.skip(1));
        }
    }

    /// The lock law over sequences: an account is there, and locked if it
    /// was, after any sequence of events.
    pub proof fn lemma_run_locked_stays_locked(self, events: Seq<Trx>, client: u16)
        requires
            self.wf(),
            self.accounts.contains_key(client),
        ensures
            self.run(events).accounts.contains_key(client),
            self.accounts[client].locked ==> self.run(events).accounts[client].locked,
        decreases events.len(),
    {
        if events.len() > 0 {
            self.lemma_apply_keeps_well_formed(events[0]);
            self.lemma_locked_stays_locked(events[0], client);
            self.apply(events[0]).0.lemma_run_locked_stays_locked(events.skip(1), client);
        }
    }

    /// The log bound over sequences: a log made with a capacity of at least
    /// one holds no more records than that after any sequence of events.
    pub proof fn lemma_run_log_within_capacity(self, events: Seq<Trx>, capacity: usize)
        requires
            self.wf(),
            self.capacity == Some(capacity),
            capacity >= 1,
        ensures
            self.run(events).log.len() <= capacity,
    {
        self.lemma_run_keeps_well_formed(events);
    }

    /// The duplicate law over sequences: with a log that has no capacity, of
    /// all the deposits and withdrawals of a sequence that share an id at
    /// most one takes effect, and none where the log held the id before.
    pub proof fn lemma_id_booked_at_most_once(self, events: Seq<Trx>, tx: u32)
        requires
            self.wf(),
            self.capacity is None,
        ensures
            self.bookings(events, tx) <= 1,
            has_key(self.log, tx) ==> self.bookings(events, tx) == 0,
        decreases events.len(),
    {
        if events.len() > 0 {
            let first = events[0];
            let next = self.apply(first).0;
            self.lemma_apply_keeps_well_formed(first);
            next.lemma_id_booked_at_most_once(events.skip(1), tx);
            if has_key(self.log, tx) {
                self.lemma_unbounded_log_keeps_ids(first, tx);
            }
            if Ledger::books(first) && first.tx() == tx && self.apply(first).1.applied() {
                self.lemma_applied_is_recorded(first);
            }
        }
    }
}

} // verus!
