//! The asset references of a script module.

pub mod references;
pub mod visitor;
