//! A directed graph recorded edge by edge, and the orders in which it is read
//! back.

pub mod adjacency_map;
pub mod laws;
pub mod order;
