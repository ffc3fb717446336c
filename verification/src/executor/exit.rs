//! From the way the target ended to the outcome of the run.
use vstd::prelude::*;
use crate::byte_count::{frame_of, total, AmpByteCount, AmpView, Layer, UdpByteCount};
use crate::defs::MSAN_ERROR_CODE;
use crate::status_type::StatusType;

verus! {

/// How the target's process ended.
#[derive(Debug, Clone, Copy, PartialEq, Eq, Structural)]
pub enum ChildExit {
    /// It exited by itself with this code.
    Exited(i32),
    /// A signal ended it.
    Signaled,
    /// It was still running when the time to answer was over, and was
    /// killed.
    TimedOut,
}

/// The outcome of a run by the way its process ended. A signal is a crash,
/// and so is the sanitizer's exit code under a sanitizer and an exit code
/// above 128 in pin mode. A target that was still running counts as an
/// ordinary run: the reply decides whether it amplifies, not the exit.
pub open spec fn exit_status(exit: ChildExit, uses_asan: bool, pin_mode: bool) -> StatusType {
    match exit {
        ChildExit::Exited(code) => if (uses_asan && code == MSAN_ERROR_CODE) || (pin_mode && code
            > 128) {
            StatusType::Crash
        } else {
            StatusType::Normal
        },
        ChildExit::Signaled => StatusType::Crash,
        ChildExit::TimedOut => StatusType::Normal,
    }
}

/// The outcome of a run by the way its process ended.
pub fn classify_exit(exit: ChildExit, uses_asan: bool, pin_mode: bool) -> (status: StatusType)
    ensures
        status == exit_status(exit, uses_asan, pin_mode),
{
    match exit {
        ChildExit::Exited(code) => {
            if (uses_asan && code == MSAN_ERROR_CODE) || (pin_mode && code > 128) {
                StatusType::Crash
            } else {
                StatusType::Normal
            }
        },
        ChildExit::Signaled => StatusType::Crash,
        ChildExit::TimedOut => StatusType::Normal,
    }
}

/// The outcome of a run under the fork server, from the wait status that
/// the server reports: a signal (a low byte that is neither zero nor 127)
/// is a crash, and so is the sanitizer's exit code under a sanitizer.
pub open spec fn wait_status(status: i32, uses_asan: bool) -> StatusType {
    let low = status % 128;
    let code = (status / 256) % 256;
    if status >= 0 && ((low != 0 && low != 127) || (uses_asan && code == MSAN_ERROR_CODE)) {
        StatusType::Crash
    } else {
        StatusType::Normal
    }
}

/// The outcome of a run under the fork server.
pub fn classify_wait_status(status: i32, uses_asan: bool) -> (r: StatusType)
    ensures
        r == wait_status(status, uses_asan),
{
    if status < 0 {
        return StatusType::Normal;
    }
    let low: i32 = status % 128;
    let code: i32 = (status / 256) % 256;
    if (low != 0 && low != 127) || (uses_asan && code == MSAN_ERROR_CODE) {
        StatusType::Crash
    } else {
        StatusType::Normal
    }
}

/// The outcome of an ordinary run after the replies were counted: a run
/// that drew a reply amplifies, with the input as the one datagram sent.
/// What went in is never nothing.
pub fn amp_status(status: StatusType, path_hash: u64, input_len: usize, output: UdpByteCount) -> (r:
    StatusType)
    requires
        frame_of(Layer::L2, input_len as int) <= usize::MAX,
    ensures
        status is Normal && output@.len() > 0 ==> (match r {
            StatusType::Amp(path, amp) => path == path_hash && amp@ == (AmpView {
                bytes_in: seq![input_len],
                bytes_out: output@,
            }) && total(amp@.bytes_in, Layer::L2) >= 64,
            _ => false,
        }),
        !(status is Normal && output@.len() > 0) ==> r == status,
{
    match status {
        StatusType::Normal => {
            if output.len() > 0 {
                proof {
                    let sent = seq![input_len];
                    assert(sent.drop_last() =~= Seq::<usize>::empty());
                    assert(total(sent.drop_last(), Layer::L2) == 0);
                }
                StatusType::Amp(
                    path_hash,
                    AmpByteCount { bytes_in: UdpByteCount::from_l7(input_len), bytes_out: output },
                )
            } else {
                StatusType::Normal
            }
        },
        other => other,
    }
}

/// The speed of an input in microseconds for each run, from the time that
/// three runs took; it stops at the largest 32-bit number.
pub open spec fn speed_of(secs: u64, subsec_nanos: u32) -> u32 {
    let micros = secs * 1_000_000 + subsec_nanos / 1000;
    if micros / 3 > u32::MAX {
        u32::MAX
    } else {
        (micros / 3) as u32
    }
}

/// The speed of an input, from the time that three runs took.
pub fn count_time(secs: u64, subsec_nanos: u32) -> (speed: u32)
    ensures
        speed == speed_of(secs, subsec_nanos),
{
    if secs > 0xFFFF_FFFF {
        return u32::MAX;
    }
    let micros: u64 = secs * 1_000_000 + (subsec_nanos / 1000) as u64;
    if micros / 3 > 0xFFFF_FFFF {
        u32::MAX
    } else {
        (micros / 3) as u32
    }
}

} // verus!
