//! A minimal proof-of-work ledger: blocks sealed by a brute-force hash
//! search, linked into an append-only chain, with a self-adjusting
//! difficulty target and a simple balance-tracking wallet layer.

pub mod bytes;
pub mod chain;
pub mod hashing;
pub mod block;
pub mod transaction;
pub mod wallet;
