//! The flow of artifacts between projects: attributes that select producers for consumers,
//! the artifacts themselves, and the outgoing variants of a project.

pub mod attributes;
pub mod shared;
pub mod output;
