//! The environment that the target is started in.
use vstd::prelude::*;
use vstd::string::StringExecFns;
use vstd::string::StringSliceAdditionalSpecFns;
use crate::defs::{
    EarlyTermination, ASAN_OPTIONS_CONTENT, ASAN_OPTIONS_VAR, BRANCHES_SHM_ENV_VAR,
    COND_STMT_ENV_VAR, EARLY_TERMINATION_VAR, LD_LIBRARY_PATH_VAR, LISTEN_SEM_ENV_VAR,
    MSAN_OPTIONS_CONTENT, MSAN_OPTIONS_VAR, TRACK_FILE_PATH_VAR,
};
use crate::text::{decimal_digits, push_decimal};

verus! {

/// A whole number in decimal, with a minus sign where it is negative.
pub open spec fn signed_digits(n: int) -> Seq<char> {
    if n < 0 {
        "-"@ + decimal_digits((-n) as nat)
    } else {
        decimal_digits(n as nat)
    }
}

/// A whole number in decimal.
pub fn signed_decimal(n: i32) -> (text: String)
    ensures
        text@ == signed_digits(n as int),
{
    let mut text = String::new();
    if n < 0 {
        text.append("-");
        push_decimal(&mut text, (-(n as i64)) as u64);
        proof {
            assert(text@ =~= "-"@ + decimal_digits((-n) as nat));
        }
    } else {
        push_decimal(&mut text, n as u64);
        proof {
            assert(text@ =~= decimal_digits(n as nat));
        }
    }
    text
}

/// What the executor knows of the shared memory and of the command line
/// when it builds the target's environment.
pub struct EnvSetup {
    /// Key of the coverage bitmap's shared memory.
    pub branches_id: i32,
    /// Key of the shared memory of the condition under search.
    pub cond_id: i32,
    /// Key of the listen semaphore's shared memory.
    pub listen_sem_id: i32,
    /// The target announces by the semaphore that it listens.
    pub enable_listen_ready: bool,
    /// The directories of the target's libraries.
    pub ld_library: String,
    pub early_termination: EarlyTermination,
}

/// The variables of the target's environment, as pairs of name and value.
pub open spec fn envs_of(setup: EnvSetup) -> Seq<(Seq<char>, Seq<char>)> {
    let head = seq![
        (ASAN_OPTIONS_VAR@, ASAN_OPTIONS_CONTENT@),
        (MSAN_OPTIONS_VAR@, MSAN_OPTIONS_CONTENT@),
        (BRANCHES_SHM_ENV_VAR@, signed_digits(setup.branches_id as int)),
        (COND_STMT_ENV_VAR@, signed_digits(setup.cond_id as int)),
    ];
    let sem = if setup.enable_listen_ready {
        seq![(LISTEN_SEM_ENV_VAR@, signed_digits(setup.listen_sem_id as int))]
    } else {
        Seq::empty()
    };
    head + sem + seq![
        (LD_LIBRARY_PATH_VAR@, setup.ld_library@),
        (EARLY_TERMINATION_VAR@, setup.early_termination.spec_name()),
    ]
}

/// What a list of variables reads.
pub open spec fn env_views(envs: Seq<(String, String)>) -> Seq<(Seq<char>, Seq<char>)> {
    envs.map_values(|e: (String, String)| (e.0@, e.1@))
}

/// The variables that every run of the target gets: the sanitizers'
/// options, the keys of the shared memory, the key of the listen
/// semaphore where the target announces that it listens, the library path
/// and the mode of early termination.
pub fn target_envs(setup: &EnvSetup) -> (envs: Vec<(String, String)>)
    ensures
        env_views(envs@) == envs_of(*setup),
{
    let mut envs: Vec<(String, String)> = Vec::new();
    envs.push((String::from_str(ASAN_OPTIONS_VAR), String::from_str(ASAN_OPTIONS_CONTENT)));
    envs.push((String::from_str(MSAN_OPTIONS_VAR), String::from_str(MSAN_OPTIONS_CONTENT)));
    envs.push((String::from_str(BRANCHES_SHM_ENV_VAR), signed_decimal(setup.branches_id)));
    envs.push((String::from_str(COND_STMT_ENV_VAR), signed_decimal(setup.cond_id)));
    if setup.enable_listen_ready {
        envs.push((String::from_str(LISTEN_SEM_ENV_VAR), signed_decimal(setup.listen_sem_id)));
    }
    envs.push((String::from_str(LD_LIBRARY_PATH_VAR), setup.ld_library.clone()));
    envs.push(
        (String::from_str(EARLY_TERMINATION_VAR), String::from_str(setup.early_termination.name())),
    );
    proof {
        assert(env_views(envs@) =~= envs_of(*setup));
    }
    envs
}

/// The file that the tracking run of input `id` writes its log to: the
/// base path, `_` and the number.
pub open spec fn track_path_of(base: Seq<char>, id: nat) -> Seq<char> {
    base + "_"@ + decimal_digits(id)
}

/// The variable that tells the tracking run of input `id` where to write
/// its log.
pub fn track_env(track_file_path: &str, id: usize) -> (env: (String, String))
    ensures
        env.0@ == TRACK_FILE_PATH_VAR@,
        env.1@ == track_path_of(track_file_path@, id as nat),
{
    let mut path = String::from_str(track_file_path);
    path.append("_");
    push_decimal(&mut path, id as u64);
    (String::from_str(TRACK_FILE_PATH_VAR), path)
}

/// The file next to a library that holds the library's targets and static
/// control-flow graph: the library's path with `.targets.json` behind it.
pub open spec fn targets_file_of(load_path: Seq<u8>) -> Seq<u8> {
    load_path + ".targets.json".spec_bytes()
}

/// The file next to a library that holds the library's targets and static
/// control-flow graph.
pub fn targets_file(load_path: &Vec<u8>) -> (path: Vec<u8>)
    ensures
        path@ == targets_file_of(load_path@),
{
    let suffix = ".targets.json".as_bytes();
    let mut path: Vec<u8> = Vec::new();
    let mut i: usize = 0;
    while i < load_path.len()
        invariant
            i <= load_path.len(),
            path@ == load_path@.take(i as int),
        decreases load_path.len() - i,
    {
        path.push(load_path[i]);
        i = i + 1;
    }
    let mut k: usize = 0;
    while k < suffix.len()
        invariant
            k <= suffix.len(),
            path@ == load_path@ + suffix@.take(k as int),
        decreases suffix.len() - k,
    {
        path.push(suffix[k]);
        k = k + 1;
    }
    path
}

/// The time limits of a tracking run: those of an ordinary run stretched
/// by the factor for tracking, stopping at the largest 64-bit number.
pub fn track_limit(limit: u64) -> (stretched: u64)
    ensures
        stretched == (if limit * crate::config::TIME_LIMIT_TRACK_FACTOR <= u64::MAX {
            (limit * crate::config::TIME_LIMIT_TRACK_FACTOR) as u64
        } else {
            u64::MAX
        }),
{
    if limit > u64::MAX / crate::config::TIME_LIMIT_TRACK_FACTOR {
        u64::MAX
    } else {
        limit * crate::config::TIME_LIMIT_TRACK_FACTOR
    }
}

} // verus!
