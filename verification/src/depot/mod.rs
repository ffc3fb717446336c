//! The store of conditions waiting to be fuzzed, ordered by priority, and
//! the numbering of the inputs that the fuzzer keeps.
pub mod qpriority;
pub mod heap;
pub mod queue;
pub mod digest;
pub mod file_name;
pub mod random;
pub mod depot;
