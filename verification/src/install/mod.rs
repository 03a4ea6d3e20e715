//! `install`: the steps that set a project up, one after the other.
pub mod renderer;
pub mod runner;
pub mod state;
