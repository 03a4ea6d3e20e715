//! Git hooks: installing them, and running the checks of a pre-commit
//! configuration.
pub mod config;
pub mod error;
pub mod git;
pub mod installer;
pub mod runner;
