//! The shared cross-protocol email shapes the interface renders.

pub mod address;
pub mod envelope;
pub mod mailbox;
