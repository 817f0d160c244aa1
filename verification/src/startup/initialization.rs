//! Handles managing and monitoring build initialization

pub mod descriptor;

pub use descriptor::{ProjectBuilder, ProjectDescriptor, ProjectGraph};
