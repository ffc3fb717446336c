//! Counters of what the fuzzer has done, by worker and over all workers.
pub mod counter;
pub mod fuzz;
pub mod local;
pub mod chart;
