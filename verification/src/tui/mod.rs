//! The interface's state vocabulary and the decisions it takes on it.

pub mod model;
pub mod theme;
