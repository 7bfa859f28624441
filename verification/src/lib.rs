//! A payments ledger core: an ordered stream of deposits, withdrawals,
//! disputes, resolutions and chargebacks is applied to per-client accounts
//! under overflow-checked decimal arithmetic, with a bounded,
//! insertion-ordered transaction log serving as the dispute lookup table.
//!
//! * [`domain`] holds the values: amounts, events, records and accounts.
//! * [`services::tx_log`] and [`services::account_store`] hold the two
//!   collections of the ledger, each with its invariant.
//! * [`services::ledger`] is the ledger as a mathematical value: what every
//!   event does to it, and the laws that follow.
//! * [`services::payment_engine`] is the engine, held to that model.
//! * [`services::trx_processor`] takes input rows under a [`config`].
//!
//! The decimal arithmetic is `rust_decimal`'s and the two collections are
//! `indexmap`'s and `dashmap`'s; what is taken on trust of them is written
//! down where they are called, and everything else is proved.

pub mod config;
pub mod domain;
pub mod services;
