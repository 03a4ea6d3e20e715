//! Agent instructions and skills that come from upstream repositories.
pub mod error;
pub mod manifest;
pub mod merge;
pub mod report;
pub mod state;
