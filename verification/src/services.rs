//! The ledger's moving parts: the transaction log, the account store, the
//! engine over both, and the row-by-row processor in front of the engine.

pub mod account_store;
pub mod ledger;
pub mod payment_engine;
pub mod trx_processor;
pub mod tx_log;
