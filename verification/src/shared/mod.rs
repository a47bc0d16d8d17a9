//! The cross-protocol client's backend decisions.

pub mod client;
