//! Build initialization: the projects that a build declares.

pub mod initialization;
