//! Core types of a build tool: identifiers, lazily evaluated properties, project and task
//! paths, attribute matching, plugins, extensions and logging state.

pub mod text;
pub mod identifier;
pub mod lazy_evaluation;
pub mod logging;
pub mod project;
pub mod named;
pub mod flow;
pub mod startup;
pub mod startup_api;
pub mod plugins;
pub mod immutable;
pub mod fingerprint;
pub mod task;
pub mod resources;
pub mod properties;
