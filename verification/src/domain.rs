//! The values the ledger works on: amounts, events, records and accounts.

pub mod amount;
pub mod transaction;
pub mod user_account;
