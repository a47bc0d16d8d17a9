//! First-time setup: the decisions the wizard takes on what the user
//! typed and on the configuration already on disk.

pub mod configure;
pub mod discover;
pub mod jmap;
pub mod mailbox;
pub mod secret;
