//! The Maildir backend's in-memory listing logic.

pub mod backend;
