//! Operation codes, flag bits and states of a condition record, and the
//! sentinels shared with the instrumented target.
use vstd::prelude::*;

verus! {

/// Output reported for a site that the run never reached.
pub const UNREACHABLE: u64 = 0xFFFF_FFFF_FFFF_FFFF;

/// Exit code by which the sanitizers report an error.
pub const MSAN_ERROR_CODE: i32 = 86;

/// Speed assigned to an input whose timing could not be measured.
pub const SLOW_SPEED: u32 = 888888;

/// Synthetic operation: mutate the whole input as AFL does.
pub const COND_AFL_OP: u32 = 0x8001;

/// Synthetic operation: a comparison made by a library function.
pub const COND_FN_OP: u32 = 0x8002;

/// Synthetic operation: a condition on the input's length.
pub const COND_LEN_OP: u32 = 0x8003;

/// Synthetic operation: shrink an input that already amplifies.
pub const COND_AMP_OP: u32 = 0x8004;

/// Low byte of `op`: the comparison family.
pub const COND_BASIC_MASK: u32 = 0xFF;

/// Flag: the operands are signed.
pub const COND_SIGN_MASK: u32 = 0x100;

/// Flag: the comparison is on a boolean.
pub const COND_BOOL_MASK: u32 = 0x200;

/// Flag: the record marks an exploitable value, not a branch.
pub const COND_EXPLOIT_MASK: u32 = 0x4000;

/// The branch was not taken.
pub const COND_FALSE_ST: u32 = 0;

/// The branch was taken.
pub const COND_TRUE_ST: u32 = 1;

/// Both sides have been seen; nothing is left to explore.
pub const COND_DONE_ST: u32 = 2;

/// Largest `op` that is explored.
pub const COND_MAX_EXPLORE_OP: u32 = 0x3FFF;

/// Largest `op` that is exploited.
pub const COND_MAX_EXPLOIT_OP: u32 = 0x4FFF;

/// Last of the floating-point comparison families.
pub const COND_FCMP_TRUE: u32 = 15;

/// Integer equality.
pub const COND_ICMP_EQ_OP: u32 = 32;

/// Integer inequality.
pub const COND_ICMP_NE_OP: u32 = 33;

/// First of the signed integer orderings.
pub const COND_ICMP_SGT_OP: u32 = 38;

/// Last of the signed integer orderings.
pub const COND_ICMP_SLE_OP: u32 = 41;

/// One case of a switch.
pub const COND_SW_OP: u32 = 0xFF;

} // verus!

verus! {

/// Name of the variable that tells the target where its coverage bitmap is.
pub const BRANCHES_SHM_ENV_VAR: &'static str = "ANGORA_BRANCHES_SHM_ID";

/// Name of the variable that tells the target where the condition under
/// search is.
pub const COND_STMT_ENV_VAR: &'static str = "ANGORA_COND_STMT_SHM_ID";

/// Name of the variable that tells the target where the listen semaphore is.
pub const LISTEN_SEM_ENV_VAR: &'static str = "ANGORA_LISTEN_SEM_ID";

/// Name of the variable that tells the tracking target where to write its
/// log.
pub const TRACK_FILE_PATH_VAR: &'static str = "ANGORA_TRACK_FILE_PATH";

/// Name of the variable with the directories of the target's libraries.
pub const LD_LIBRARY_PATH_VAR: &'static str = "LD_LIBRARY_PATH";

/// Name of the variable with the mode of early termination.
pub const EARLY_TERMINATION_VAR: &'static str = "ANGORA_EARLY_TERMINATION";

/// Name of the variable with the port that the target is fuzzed on.
pub const FUZZ_PORT_VAR: &'static str = "ANGORA_FUZZ_PORT";

/// Name of the variable with the path of the fork server's socket.
pub const FORKSRV_SOCKET_PATH_VAR: &'static str = "ANGORA_FORKSRV_SOCKET_PATH";

/// Name of the variable that switches the fork server on.
pub const ENABLE_FORKSRV: &'static str = "ANGORA_ENABLE_FORKSRV";

/// Name of the variable with the options of the address sanitizer.
pub const ASAN_OPTIONS_VAR: &'static str = "ASAN_OPTIONS";

/// Name of the variable with the options of the memory sanitizer.
pub const MSAN_OPTIONS_VAR: &'static str = "MSAN_OPTIONS";

/// The options under which the address sanitizer runs.
pub const ASAN_OPTIONS_CONTENT: &'static str =
    "abort_on_error=1:detect_leaks=0:symbolize=0:allocator_may_return_null=1";

/// The options under which the memory sanitizer runs.
pub const MSAN_OPTIONS_CONTENT: &'static str =
    "exit_code=86:symbolize=0:abort_on_error=1:allocator_may_return_null=1:msan_track_origins=0";

/// When the target leaves a run by itself, once it has read the input.
#[derive(Debug, Clone, Copy, PartialEq, Eq, Structural)]
pub enum EarlyTermination {
    /// Never.
    Off,
    /// At the checks that the runtime makes where the target waits for
    /// input.
    Dynamic,
    /// At the checks that the compiler placed.
    Static,
    /// At both kinds of checks.
    Full,
}

impl EarlyTermination {
    /// The name of the mode.
    pub open spec fn spec_name(self) -> Seq<char> {
        match self {
            EarlyTermination::Off => "none"@,
            EarlyTermination::Dynamic => "dynamic"@,
            EarlyTermination::Static => "static"@,
            EarlyTermination::Full => "full"@,
        }
    }

    /// The name of the mode.
    pub fn name(&self) -> (s: &'static str)
        ensures
            s@ == self.spec_name(),
    {
        match self {
            EarlyTermination::Off => "none",
            EarlyTermination::Dynamic => "dynamic",
            EarlyTermination::Static => "static",
            EarlyTermination::Full => "full",
        }
    }

    /// Whether a check of the given kind ends the target: the mode covers
    /// the kind, and the target has read its input.
    pub fn fires(&self, static_check: bool, has_read: bool) -> (b: bool)
        ensures
            b == (has_read && (*self == EarlyTermination::Full || (static_check && *self
                == EarlyTermination::Static) || (!static_check && *self
                == EarlyTermination::Dynamic))),
    {
        let covered = match self {
            EarlyTermination::Off => false,
            EarlyTermination::Dynamic => !static_check,
            EarlyTermination::Static => static_check,
            EarlyTermination::Full => true,
        };
        covered && has_read
    }
}

impl Default for EarlyTermination {
    fn default() -> (mode: Self)
        ensures
            mode == EarlyTermination::Full,
    {
        EarlyTermination::Full
    }
}

} // verus!
