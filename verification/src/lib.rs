//! The logic of a coverage-guided, taint-directed fuzzer that looks for UDP
//! amplification: the conditions it searches over and the queue that orders
//! them, byte accounting over the UDP stack, the coverage bitmap, the
//! control-flow graph that directs the search, the log of tracking runs, and
//! what the executor decides around each run of the target. Processes,
//! sockets and files are left to the program built around this library.
use vstd::prelude::*;

pub mod config;
pub mod defs;
pub mod tag;
pub mod cond_stmt_base;
pub mod byte_count;
pub mod conv;
pub mod text;
pub mod keys;
pub mod fuzz_type;
pub mod cond_stmt;
pub mod dyncfg;
pub mod status_type;
pub mod branches;
pub mod depot;
pub mod stats;
pub mod search;
pub mod check_dep;
pub mod track;
pub mod executor;
pub mod runtime;
pub mod fuzz_loop;

verus! {

/// Marker the instrumentation calls at branch sites that were unfolded; it
/// observes its argument and does nothing.
pub fn __unfold_branch_fn(_x: u32) {
}

} // verus!
