//! IMAP: reading the `server` field and the auto-`ID` parameters.

pub mod client;
