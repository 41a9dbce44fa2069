//! Diagnostic events of a run and the decisions of how they are logged.
pub mod event;
pub mod logging;
