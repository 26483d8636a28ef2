//! Proof-of-History log engine: a tamper-evident, totally ordered log of
//! events whose order is witnessed by iterated SHA-256 hashing.

pub mod event;
pub mod hash;
pub mod historian;
pub mod laws;
pub mod ledger;
pub mod log;
pub mod signature;
