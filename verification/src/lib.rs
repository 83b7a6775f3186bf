//! A verified balance ledger: a per-account staked-token balance and a single
//! global counter, with mutation operations (increment, reset, stake, unstake)
//! and read-only queries (get count, get stake).
//!
//! The ledger itself is a plain value; the hosting runtime owns persistence,
//! message decoding and fund settlement, and calls these handlers with the
//! authenticated sender and the attached funds as plain data.

pub mod contract;
pub mod error;
pub mod execute;
pub mod laws;
pub mod msg;
pub mod query;
pub mod state;
