//! An in-process ledger: named accounts, their balances, and the append-only
//! log of the operations that produced those balances.

pub mod bank;
pub mod handler;
pub mod protocol;
