//! The settings a build starts with, and the listeners that can follow it.

pub mod invocation;
pub mod listeners;
