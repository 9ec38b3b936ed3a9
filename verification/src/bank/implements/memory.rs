//! Backends that keep everything in memory.

pub mod storage;
