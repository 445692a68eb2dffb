//! An in-memory ledger: accounts with an overdraft limit, each keeping a
//! bounded, newest-first history of the transactions applied to it.

pub mod account;
pub mod history;
pub mod service;
pub mod store;
pub mod transaction;
