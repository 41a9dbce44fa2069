//! Pipeline core: line maps, stage payloads and size limits.
pub mod linemap;
pub mod payload;
pub mod pipeline;
pub mod size_guard;
