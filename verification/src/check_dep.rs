//! Checks made before fuzzing starts: that the directories are there and
//! that the targets carry the marks of their instrumentation.
use vstd::prelude::*;
use vstd::string::StringSliceAdditionalSpecFns;

verus! {

/// `pattern` stands in `text` at position `at`.
pub open spec fn occurs_at(text: Seq<u8>, pattern: Seq<u8>, at: int) -> bool {
    0 <= at && at + pattern.len() <= text.len() && text.subrange(at, at + pattern.len()) == pattern
}

/// `pattern` stands somewhere in `text`.
pub open spec fn occurs(text: Seq<u8>, pattern: Seq<u8>) -> bool {
    exists|at: int| occurs_at(text, pattern, at)
}

/// Calls `twoway::find_bytes`: the first position at which `pattern`
/// stands in `text`, or nothing where it stands nowhere. The empty
/// pattern stands at the start.
#[verifier::external_body]
pub(crate) fn find_bytes(text: &[u8], pattern: &[u8]) -> (found: Option<usize>)
    ensures
        match found {
            Some(at) => occurs_at(text@, pattern@, at as int) && forall|before: int|
                0 <= before < at ==> !occurs_at(text@, pattern@, before),
            None => !occurs(text@, pattern@),
        },
{
    twoway::find_bytes(text, pattern)
}

/// Whether the file holds the text `marker`.
pub fn containt_string(f_data: &[u8], marker: &str) -> (b: bool)
    ensures
        b == occurs(f_data@, marker.spec_bytes()),
{
    match find_bytes(f_data, marker.as_bytes()) {
        Some(at) => {
            proof {
                assert(occurs_at(f_data@, marker.spec_bytes(), at as int));
            }
            true
        },
        None => false,
    }
}

/// Whether the target was built with a sanitizer: its file names the
/// sanitizer's library or its start-up routine.
pub fn check_asan(f_data: &[u8]) -> (b: bool)
    ensures
        b == (occurs(f_data@, "libasan.so".spec_bytes()) || occurs(
            f_data@,
            "__msan_init".spec_bytes(),
        )),
{
    containt_string(f_data, "libasan.so") || containt_string(f_data, "__msan_init")
}

/// What was found of a target on disk.
pub struct TargetFile<'a> {
    /// The path names an existing regular file.
    pub is_file: bool,
    /// What the file holds.
    pub data: &'a [u8],
}

/// What was found of the directories on disk.
#[derive(Debug, Clone, Copy, PartialEq, Eq, Structural)]
pub struct IoDirs {
    /// The input directory is given as `-`: an earlier run is resumed.
    pub resume: bool,
    /// The input directory exists and is a directory.
    pub in_is_dir: bool,
    /// The output directory exists.
    pub out_exists: bool,
}

/// Why fuzzing cannot start.
#[derive(Debug, Clone, Copy, PartialEq, Eq, Structural)]
pub enum DepError {
    /// An earlier run is to be resumed and its output directory is missing.
    MissingOutputDir,
    /// The input directory is missing or no directory.
    MissingInputDir,
    /// A target is missing or no regular file.
    InvalidExecutable,
    /// The fast target carries no mark of the instrumentation.
    NotInstrumented,
    /// The tracking target carries no mark of the taint tracking.
    NotTracking,
}

/// The mark that the instrumentation leaves in the fast target.
pub open spec fn fast_marker() -> Seq<u8> {
    "__angora_cond_cmpid".spec_bytes()
}

/// The mark that the taint tracking leaves in the tracking target.
pub open spec fn track_marker() -> Seq<u8> {
    "__dfsw___angora_trace_cmp_tt".spec_bytes()
}

/// The first reason, in the order in which the checks are made, for which
/// fuzzing cannot start. The tracking target is looked at only where
/// `track` is given.
pub open spec fn first_failure(dirs: IoDirs, fast: TargetFile, track: Option<TargetFile>) -> Option<
    DepError,
> {
    if dirs.resume && !dirs.out_exists {
        Some(DepError::MissingOutputDir)
    } else if !dirs.resume && !dirs.in_is_dir {
        Some(DepError::MissingInputDir)
    } else if !fast.is_file {
        Some(DepError::InvalidExecutable)
    } else if !occurs(fast.data@, fast_marker()) {
        Some(DepError::NotInstrumented)
    } else {
        match track {
            None => None,
            Some(track) => if !track.is_file {
                Some(DepError::InvalidExecutable)
            } else if !occurs(track.data@, track_marker()) {
                Some(DepError::NotTracking)
            } else {
                None
            },
        }
    }
}

/// Checks the directories.
pub fn check_io_dir(dirs: IoDirs) -> (r: Result<(), DepError>)
    ensures
        r == (if dirs.resume && !dirs.out_exists {
            Err::<(), DepError>(DepError::MissingOutputDir)
        } else if !dirs.resume && !dirs.in_is_dir {
            Err::<(), DepError>(DepError::MissingInputDir)
        } else {
            Ok::<(), DepError>(())
        }),
{
    if dirs.resume {
        if !dirs.out_exists {
            return Err(DepError::MissingOutputDir);
        }
    } else {
        if !dirs.in_is_dir {
            return Err(DepError::MissingInputDir);
        }
    }
    Ok(())
}

/// Checks that a target is a regular file.
pub fn check_target_binary(target: &TargetFile) -> (r: Result<(), DepError>)
    ensures
        r is Ok == target.is_file,
        r is Err ==> r == Err::<(), DepError>(DepError::InvalidExecutable),
{
    if !target.is_file {
        return Err(DepError::InvalidExecutable);
    }
    Ok(())
}

/// Checks that the fast target was built by the instrumenting compiler.
pub fn check_fast(target: &TargetFile) -> (r: Result<(), DepError>)
    ensures
        r == (if !target.is_file {
            Err::<(), DepError>(DepError::InvalidExecutable)
        } else if !occurs(target.data@, fast_marker()) {
            Err::<(), DepError>(DepError::NotInstrumented)
        } else {
            Ok::<(), DepError>(())
        }),
{
    if !target.is_file {
        return Err(DepError::InvalidExecutable);
    }
    if !containt_string(target.data, "__angora_cond_cmpid") {
        return Err(DepError::NotInstrumented);
    }
    Ok(())
}

/// Checks that the tracking target was built with taint tracking.
pub fn check_track_llvm(target: &TargetFile) -> (r: Result<(), DepError>)
    ensures
        r == (if !target.is_file {
            Err::<(), DepError>(DepError::InvalidExecutable)
        } else if !occurs(target.data@, track_marker()) {
            Err::<(), DepError>(DepError::NotTracking)
        } else {
            Ok::<(), DepError>(())
        }),
{
    if !target.is_file {
        return Err(DepError::InvalidExecutable);
    }
    if !containt_string(target.data, "__dfsw___angora_trace_cmp_tt") {
        return Err(DepError::NotTracking);
    }
    Ok(())
}

/// Makes all checks in their order and reports the first that fails.
pub fn check_dep(dirs: IoDirs, fast: &TargetFile, track: Option<&TargetFile>) -> (r: Result<
    (),
    DepError,
>)
    ensures
        match first_failure(
            dirs,
            *fast,
            match track {
                Some(t) => Some(*t),
                None => None,
            },
        ) {
            Some(e) => r == Err::<(), DepError>(e),
            None => r is Ok,
        },
{
    match check_io_dir(dirs) {
        Err(e) => {
            return Err(e);
        },
        Ok(_) => {},
    }
    match check_fast(fast) {
        Err(e) => {
            return Err(e);
        },
        Ok(_) => {},
    }
    match track {
        Some(target) => check_track_llvm(target),
        None => Ok(()),
    }
}

} // verus!
