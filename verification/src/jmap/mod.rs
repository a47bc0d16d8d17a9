//! JMAP: reading the `server` field, the `Authorization` header and
//! mailbox name resolution.

pub mod client;
