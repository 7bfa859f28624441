//! The engine: it owns the account store and the transaction log, and
//! decides for every event whether the ledger admits it.
//!
//! An engine is changed through `&mut self`, so events reach it one at a
//! time. Callers that share an engine put it behind one lock and take that
//! lock before the engine looks at its log: of two events with one
//! transaction id only the first can then be recorded.

use crate::domain::amount::Amount;
use crate::domain::transaction::{Trx, TrxStatus, TxRecord};
use crate::domain::user_account::UserAccount;
use crate::services::account_store::{account_of, lists_accounts, AccountStore};
use crate::services::ledger::{Ledger, TrxOutcome};
use crate::services::tx_log::{has_key, lookup, make_room, position, stored, TxLog};
use vstd::prelude::*;

verus! {

/// The payments engine. Its view is the [`Ledger`] it has reached.
pub struct PaymentsEngine {
    user_account_map: AccountStore,
    tx_history: TxLog,
}

impl View for PaymentsEngine {
    type V = Ledger;

    closed spec fn view(&self) -> Ledger {
        Ledger {
            accounts: self.user_account_map@,
            log: self.tx_history@,
            capacity: self.tx_history.spec_capacity(),
        }
    }
}

impl PaymentsEngine {
    /// Every engine holds a well-formed ledger.
    #[verifier::type_invariant]
    pub open spec fn wf(&self) -> bool {
        self@.wf()
    }

    /// An engine with an unbounded log.
    pub fn new() -> (engine: Self)
        ensures
            engine@ == Ledger::empty(None),
            engine@.wf(),
    {
        PaymentsEngine::with_max_history(None)
    }

    /// An engine whose log holds at most `max_tx_history` records, or any
    /// number where that is `None`.
    pub fn with_max_history(max_tx_history: Option<usize>) -> (engine: Self)
        ensures
            engine@ == Ledger::empty(max_tx_history),
            engine@.wf(),
    {
        PaymentsEngine {
            user_account_map: AccountStore::new(),
            tx_history: TxLog::new(max_tx_history),
        }
    }

    /// Whether the log holds the transaction id already.
    fn check_duplicate_tx(&self, tx: u32) -> (duplicate: bool)
        ensures
            duplicate == has_key(self@.log, tx),
    {
        self.tx_history.contains(tx)
    }

    /// Records an accepted deposit or withdrawal of a client that has an
    /// account, evicting the oldest record first where the log is full.
    fn insert_tx_with_eviction(&mut self, tx: u32, client: u16, amount: Amount)
        requires
            old(self)@.accounts.contains_key(client),
        ensures
            final(self)@ == (Ledger {
                log: stored(
                    make_room(old(self)@.log, old(self)@.capacity),
                    tx,
                    TxRecord { client, amount, status: TrxStatus::Normal },
                ),
                ..old(self)@
            }),
            final(self)@.wf(),
    {
        proof {
            use_type_invariant(&*self);
            old(self)@.lemma_booked_well_formed(
                old(self)@.accounts[client],
                tx,
                TxRecord { client, amount, status: TrxStatus::Normal },
            );
            assert(old(self)@.accounts.insert(client, old(self)@.accounts[client])
                =~= old(self)@.accounts);
        }
        self.tx_history.insert(tx, TxRecord { client, amount, status: TrxStatus::Normal });
    }

    /// Applies a deposit: `available` and `total` grow by the amount and the
    /// deposit is recorded. Rejected where the id is recorded already or a
    /// new balance overflows.
    pub fn process_deposit(&mut self, client: u16, tx: u32, amount: Amount) -> (outcome: TrxOutcome)
        ensures
            (final(self)@, outcome) == old(self)@.deposit(client, tx, amount),
            final(self)@.wf(),
    {
        proof {
            use_type_invariant(&*self);
        }
        if self.check_duplicate_tx(tx) {
            return TrxOutcome::DuplicateTransaction;
        }
        let account = self.user_account_map.get_or_create(client);
        let new_available = account.available.checked_add(amount);
        let new_total = account.total.checked_add(amount);
        match account.booked(new_available, new_total) {
            Err(field) => TrxOutcome::Overflow(field),
            Ok(updated) => {
                self.user_account_map.put(updated);
                self.insert_tx_with_eviction(tx, client, amount);
                TrxOutcome::Applied
            },
        }
    }

    /// Applies a withdrawal: `available` and `total` shrink by the amount and
    /// the withdrawal is recorded. Rejected where the id is recorded already,
    /// where `available` is less than the amount, or a new balance overflows.
    pub fn process_withdrawal(&mut self, client: u16, tx: u32, amount: Amount) -> (outcome: TrxOutcome)
        ensures
            (final(self)@, outcome) == old(self)@.withdrawal(client, tx, amount),
            final(self)@.wf(),
    {
        proof {
            use_type_invariant(&*self);
        }
        if self.check_duplicate_tx(tx) {
            return TrxOutcome::DuplicateTransaction;
        }
        let account = self.user_account_map.get_or_create(client);
        if account.available.less_than(amount) {
            return TrxOutcome::InsufficientFunds;
        }
        let new_available = account.available.checked_sub(amount);
        let new_total = account.total.checked_sub(amount);
        match account.booked(new_available, new_total) {
            Err(field) => TrxOutcome::Overflow(field),
            Ok(updated) => {
                self.user_account_map.put(updated);
                self.insert_tx_with_eviction(tx, client, amount);
                TrxOutcome::Applied
            },
        }
    }

    /// The record a dispute, resolve or chargeback of `client` on `tx` works
    /// on, with the client's account; or why there is none.
    fn find_disputable(&self, client: u16, tx: u32) -> (found: Result<
        (TxRecord, UserAccount),
        TrxOutcome,
    >)
        ensures
            self@.wf(),
            match found {
                Ok((record, account)) => {
                    &&& self@.unreachable_record(client, tx) is None
                    &&& lookup(self@.log, tx) == Some(record)
                    &&& self@.accounts.contains_key(client)
                    &&& account == self@.accounts[client]
                    &&& account.client == client
                },
                Err(rejection) => self@.unreachable_record(client, tx) == Some(rejection),
            },
    {
        proof {
            use_type_invariant(self);
        }
        let record = match self.tx_history.get(tx) {
            Some(record) => record,
            None => {
                return Err(TrxOutcome::TransactionNotFound);
            },
        };
        if record.client != client {
            return Err(TrxOutcome::ClientMismatch);
        }
        match self.user_account_map.get(client) {
            Some(account) => Ok((record, account)),
            None => {
                proof {
                    // Every record's client has an account.
                    let i = position(self@.log, tx);
                    assert(self@.accounts.contains_key(self@.log[i].1.client));
                    assert(false);
                }
                Err(TrxOutcome::TransactionNotFound)
            },
        }
    }

    /// Applies a dispute: the recorded amount moves from `available` to
    /// `held`, even where that leaves `available` below zero, and the record
    /// goes under dispute. Rejected where the record is missing, belongs to
    /// another client or is not in its normal state, or a new balance
    /// overflows.
    pub fn process_dispute(&mut self, client: u16, tx: u32) -> (outcome: TrxOutcome)
        ensures
            (final(self)@, outcome) == old(self)@.dispute(client, tx),
            final(self)@.wf(),
    {
        let (record, account) = match self.find_disputable(client, tx) {
            Ok(found) => found,
            Err(rejection) => {
                return rejection;
            },
        };
        match record.status {
            TrxStatus::ChargedBack => {
                return TrxOutcome::AlreadyChargedBack;
            },
            TrxStatus::UnderDispute => {
                return TrxOutcome::AlreadyUnderDispute;
            },
            TrxStatus::Normal => {},
        }
        let new_available = account.available.checked_sub(record.amount);
        let new_held = account.held.checked_add(record.amount);
        match account.disputed(new_available, new_held) {
            Err(field) => TrxOutcome::Overflow(field),
            Ok(updated) => {
                self.user_account_map.put(updated);
                let _ = self.tx_history.set_status(tx, TrxStatus::UnderDispute);
                if updated.available.is_negative() {
                    TrxOutcome::AppliedOverdrawn
                } else {
                    TrxOutcome::Applied
                }
            },
        }
    }

    /// Applies a resolve: the recorded amount moves from `held` back to
    /// `available` and the record returns to its normal state. Rejected where
    /// the record is missing, belongs to another client or is not under
    /// dispute, or a new balance overflows.
    pub fn process_resolve(&mut self, client: u16, tx: u32) -> (outcome: TrxOutcome)
        ensures
            (final(self)@, outcome) == old(self)@.resolve(client, tx),
            final(self)@.wf(),
    {
        let (record, account) = match self.find_disputable(client, tx) {
            Ok(found) => found,
            Err(rejection) => {
                return rejection;
            },
        };
        match record.status {
            TrxStatus::UnderDispute => {},
            _ => {
                return TrxOutcome::NotUnderDispute;
            },
        }
        let new_held = account.held.checked_sub(record.amount);
        let new_available = account.available.checked_add(record.amount);
        match account.resolved(new_held, new_available) {
            Err(field) => TrxOutcome::Overflow(field),
            Ok(updated) => {
                self.user_account_map.put(updated);
                let _ = self.tx_history.set_status(tx, TrxStatus::Normal);
                TrxOutcome::Applied
            },
        }
    }

    /// Applies a chargeback: the recorded amount leaves `held` and `total`,
    /// the account is locked and the record is charged back for good.
    /// Rejected where the record is missing, belongs to another client or is
    /// not under dispute, or a new balance overflows.
    pub fn process_chargeback(&mut self, client: u16, tx: u32) -> (outcome: TrxOutcome)
        ensures
            (final(self)@, outcome) == old(self)@.chargeback(client, tx),
            final(self)@.wf(),
    {
        let (record, account) = match self.find_disputable(client, tx) {
            Ok(found) => found,
            Err(rejection) => {
                return rejection;
            },
        };
        match record.status {
            TrxStatus::UnderDispute => {},
            _ => {
                return TrxOutcome::NotUnderDispute;
            },
        }
        let new_held = account.held.checked_sub(record.amount);
        let new_total = account.total.checked_sub(record.amount);
        match account.charged_back(new_held, new_total) {
            Err(field) => TrxOutcome::Overflow(field),
            Ok(updated) => {
                self.user_account_map.put(updated);
                let _ = self.tx_history.set_status(tx, TrxStatus::ChargedBack);
                TrxOutcome::Applied
            },
        }
    }

    /// Applies one event to the ledger and says what became of it. A rejected
    /// event changes no balance, no record and no lock.
    pub fn process(&mut self, tx: Trx) -> (outcome: TrxOutcome)
        ensures
            (final(self)@, outcome) == old(self)@.apply(tx),
            final(self)@.wf(),
    {
        match tx {
            Trx::Deposit { client, tx, amount } => self.process_deposit(client, tx, amount),
            Trx::Withdrawal { client, tx, amount } => self.process_withdrawal(client, tx, amount),
            Trx::Dispute { client, tx } => self.process_dispute(client, tx),
            Trx::Resolve { client, tx } => self.process_resolve(client, tx),
            Trx::Chargeback { client, tx } => self.process_chargeback(client, tx),
        }
    }

    /// The client's account, created empty where the client had none.
    pub fn get_or_create_account(&mut self, client_id: u16) -> (account: UserAccount)
        ensures
            final(self)@ == old(self)@.touched(client_id),
            account == final(self)@.accounts[client_id],
            final(self)@.wf(),
    {
        proof {
            use_type_invariant(&*self);
        }
        self.user_account_map.get_or_create(client_id)
    }

    /// Stores the account under its client id, in place of what was there.
    pub fn set_account(&mut self, account: UserAccount)
        ensures
            final(self)@ == (Ledger {
                accounts: old(self)@.accounts.insert(account.client, account),
                ..old(self)@
            }),
            final(self)@.wf(),
    {
        proof {
            use_type_invariant(&*self);
        }
        self.user_account_map.put(account);
    }

    /// All accounts, in strictly ascending order of client id.
    pub fn get_accounts(&self) -> (accounts: Vec<UserAccount>)
        ensures
            lists_accounts(accounts@, self@.accounts),
    {
        self.user_account_map.snapshot()
    }

    /// The client's account, if it has one.
    pub fn get_account(&self, client_id: u16) -> (account: Option<UserAccount>)
        ensures
            account == account_of(self@.accounts, client_id),
    {
        self.user_account_map.get(client_id)
    }

    /// The record the log holds under the transaction id.
    pub fn get_transaction(&self, tx: u32) -> (record: Option<TxRecord>)
        ensures
            record == lookup(self@.log, tx),
    {
        self.tx_history.get(tx)
    }

    /// The number of records the log holds.
    pub fn history_len(&self) -> (n: usize)
        ensures
            n == self@.log.len(),
            self@.wf(),
    {
        proof {
            use_type_invariant(self);
        }
        self.tx_history.len()
    }
}

impl Default for PaymentsEngine {
    fn default() -> (engine: Self)
        ensures
            engine@ == Ledger::empty(None),
    {
        PaymentsEngine::new()
    }
}

} // verus!
