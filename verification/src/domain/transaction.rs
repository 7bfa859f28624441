//! Events as they arrive, events as the engine consumes them, and the record
//! the transaction log keeps of each accepted deposit or withdrawal.

use crate::domain::amount::Amount;
use vstd::prelude::*;

verus! {

/// Where a recorded transaction stands in its dispute lifecycle.
#[derive(Debug, Clone, Copy, PartialEq, Eq, Structural)]
pub enum TrxStatus {
    Normal,
    UnderDispute,
    ChargedBack,
}

/// The kind of an input row.
#[derive(Debug, Clone, Copy, PartialEq, Eq, Structural)]
pub enum TrxType {
    Deposit,
    Withdrawal,
    Dispute,
    Resolve,
    Chargeback,
}

/// An input row as read: the amount is absent on the dispute family, and may
/// be missing by mistake on the others.
#[derive(Debug, Clone, Copy)]
pub struct RawTrxRecord {
    pub tx_type: TrxType,
    pub client: u16,
    pub tx: u32,
    pub amount: Option<Amount>,
}

/// An event the engine consumes.
#[derive(Debug, Clone, Copy)]
pub enum Trx {
    Deposit { client: u16, tx: u32, amount: Amount },
    Withdrawal { client: u16, tx: u32, amount: Amount },
    Dispute { client: u16, tx: u32 },
    Resolve { client: u16, tx: u32 },
    Chargeback { client: u16, tx: u32 },
}

/// What the log remembers of an accepted deposit or withdrawal.
#[derive(Debug, Clone, Copy)]
pub struct TxRecord {
    pub client: u16,
    pub amount: Amount,
    pub status: TrxStatus,
}

impl TrxStatus {
    /// The dispute lifecycle: a record moves from `Normal` to `UnderDispute`,
    /// and from there back to `Normal` or on to `ChargedBack`, where it stays.
    pub open spec fn may_become(self, next: TrxStatus) -> bool {
        ||| self == TrxStatus::Normal && next == TrxStatus::UnderDispute
        ||| self == TrxStatus::UnderDispute && next == TrxStatus::Normal
        ||| self == TrxStatus::UnderDispute && next == TrxStatus::ChargedBack
    }
}

impl Trx {
    /// The client the event names.
    pub open spec fn client(self) -> u16 {
        match self {
            Trx::Deposit { client, .. } => client,
            Trx::Withdrawal { client, .. } => client,
            Trx::Dispute { client, .. } => client,
            Trx::Resolve { client, .. } => client,
            Trx::Chargeback { client, .. } => client,
        }
    }

    /// The transaction id the event names.
    pub open spec fn tx(self) -> u32 {
        match self {
            Trx::Deposit { tx, .. } => tx,
            Trx::Withdrawal { tx, .. } => tx,
            Trx::Dispute { tx, .. } => tx,
            Trx::Resolve { tx, .. } => tx,
            Trx::Chargeback { tx, .. } => tx,
        }
    }

    /// The event a row stands for: a deposit or a withdrawal needs its
    /// amount, the dispute family ignores one.
    pub open spec fn spec_from_raw(raw: RawTrxRecord) -> Option<Trx> {
        match raw.tx_type {
            TrxType::Deposit => match raw.amount {
                Some(amount) => Some(Trx::Deposit { client: raw.client, tx: raw.tx, amount }),
                None => None,
            },
            TrxType::Withdrawal => match raw.amount {
                Some(amount) => Some(Trx::Withdrawal { client: raw.client, tx: raw.tx, amount }),
                None => None,
            },
            TrxType::Dispute => Some(Trx::Dispute { client: raw.client, tx: raw.tx }),
            TrxType::Resolve => Some(Trx::Resolve { client: raw.client, tx: raw.tx }),
            TrxType::Chargeback => Some(Trx::Chargeback { client: raw.client, tx: raw.tx }),
        }
    }

    /// Turns a row into an event. Only a deposit or a withdrawal without an
    /// amount yields `None`.
    pub fn from_raw(raw: RawTrxRecord) -> (r: Option<Self>)
        ensures
            r == Trx::spec_from_raw(raw),
            r is None <==> raw.amount is None && (raw.tx_type == TrxType::Deposit || raw.tx_type
                == TrxType::Withdrawal),
            r matches Some(trx) ==> trx.client() == raw.client && trx.tx() == raw.tx,
    {
        match raw.tx_type {
            TrxType::Deposit => match raw.amount {
                Some(amount) => Some(Trx::Deposit { client: raw.client, tx: raw.tx, amount }),
                None => None,
            },
            TrxType::Withdrawal => match raw.amount {
                Some(amount) => Some(Trx::Withdrawal { client: raw.client, tx: raw.tx, amount }),
                None => None,
            },
            TrxType::Dispute => Some(Trx::Dispute { client: raw.client, tx: raw.tx }),
            TrxType::Resolve => Some(Trx::Resolve { client: raw.client, tx: raw.tx }),
            TrxType::Chargeback => Some(Trx::Chargeback { client: raw.client, tx: raw.tx }),
        }
    }
}

} // verus!
