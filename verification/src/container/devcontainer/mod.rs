//! Development containers.
pub mod backend;
pub mod config;
pub mod digest;
