//! The control-flow graph that grows as tracked runs report which
//! comparisons follow which, and the distances to the targets in it.
pub mod graph;
pub mod cfg;
