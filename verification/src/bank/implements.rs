//! The storage backends that come with the ledger.

pub mod memory;
