//! Verified core of a terminal email client: configuration layout,
//! paging, signatures, account naming and the other decisions the
//! interface makes on plain values.

pub mod cli;
pub mod collation;
pub mod config;
pub mod decimal;
pub mod email;
pub mod imap;
pub mod jmap;
pub mod maildir;
pub mod shared;
pub mod text;
pub mod tui;
pub mod wizard;
