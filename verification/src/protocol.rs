//! The shapes in which requests reach the ledger and answers leave it.

pub mod types;
