//! The plugin host: limits, messages, and the decisions around running rule scripts.
pub mod client;
pub mod limits;
pub mod once;
pub mod protocol;
pub mod scripts;
