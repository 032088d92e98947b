//! Static extraction of the asset references of a script module, and the
//! graph store that the dependency walk of a bundler records into.
//!
//! * [`ast`] is the syntax of a module, as far as the analysis reads it.
//! * [`analyzer`] holds the partially known values of a module: the dataflow
//!   graph that is built from the syntax, the rewrites that introduce the
//!   known values of the host, the linker that resolves a value of the graph,
//!   and the patterns of strings that a linked value can be.
//! * [`ecmascript`] finds the references of a module: those that its syntax
//!   shows, and those that its linked effects give.
//! * [`graph`] is the adjacency map, with its reverse topological and its
//!   breadth-first order.
//!
//! Every function states what it computes over mathematical models of its
//! data, and the modules named `laws` state what holds of every input.

pub mod analyzer;
pub mod ast;
pub mod ecmascript;
pub mod graph;
pub mod text;
