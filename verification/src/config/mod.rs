//! The configuration domain: value objects that the rest of the crate reads.
pub mod agents;
pub mod env;
pub mod model;
pub mod scripts;
