//! Tunables that are fixed when the fuzzer is built.
use vstd::prelude::*;

verus! {

/// Exponent of the bitmap length.
pub const MAP_SIZE_POW2: usize = 20;

/// Number of edge counters in the bitmap and in each virgin map.
pub const BRANCHES_SIZE: usize = 0x10_0000;

/// On a duplicate insert the faster of two equal conditions is kept.
pub const PREFER_FAST_COND: bool = true;

/// Largest loop order (low 16 bits) that the tracker still records.
pub const MAX_COND_ORDER: u32 = 16;

/// Number of consecutive equal outputs after which a condition counts as
/// invariable.
pub const MAX_INVARIABLE_NUM: usize = 16;

/// Number of consecutive timeouts after which a condition is given up.
pub const TMOUT_SKIP: usize = 3;

/// Default memory limit of the target, in megabytes.
pub const MEM_LIMIT: u64 = 200;

/// Memory limit of a tracking run; zero lifts the limit.
pub const MEM_LIMIT_TRACK: u64 = 0;

/// Factor by which both time limits are stretched for a tracking run.
pub const TIME_LIMIT_TRACK_FACTOR: u64 = 12;

/// Default time the target gets to start listening, in microseconds.
pub const STARTUP_TIME_LIMIT: u64 = 1_000_000;

/// Default time the target gets to answer, in microseconds.
pub const RESPONSE_TIME_LIMIT: u64 = 1_000_000;

/// The amplification strategy replays every shorter prefix of its input.
pub const ENABLE_INPUT_AMP_EXPLORATION: bool = true;

} // verus!
