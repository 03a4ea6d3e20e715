//! The cache of cloned repositories.
pub mod git;
