//! `init`: a starter configuration, from what the project is or from a template.
pub mod detector;
pub mod detectors;
pub mod plan;
pub mod render;
pub mod template;
