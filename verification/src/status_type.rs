//! How one run of the target ended.
use vstd::prelude::*;
use crate::byte_count::AmpByteCount;

verus! {

/// The outcome of one run of the target.
#[derive(Debug, PartialEq)]
pub enum StatusType {
    /// The target ran and drew no reply.
    Normal,
    /// The target did not become ready in time.
    Timeout,
    /// The target died of a signal or a sanitizer report.
    Crash,
    /// The run is not to be looked at further.
    Skip,
    /// The run could not be made.
    Error,
    /// The target replied: the hash of the path it took, and the bytes
    /// that went in and came out.
    Amp(u64, AmpByteCount),
}

impl StatusType {
    /// The run counts towards the coverage of ordinary runs.
    pub open spec fn is_normal_or_amp(self) -> bool {
        self is Normal || self is Amp
    }

    /// Both outcomes are of the same kind, and two replies are of the same
    /// path and hold the same counts.
    pub open spec fn same_as(self, other: StatusType) -> bool {
        match (self, other) {
            (StatusType::Normal, StatusType::Normal) => true,
            (StatusType::Timeout, StatusType::Timeout) => true,
            (StatusType::Crash, StatusType::Crash) => true,
            (StatusType::Skip, StatusType::Skip) => true,
            (StatusType::Error, StatusType::Error) => true,
            (StatusType::Amp(p, a), StatusType::Amp(q, b)) => p == q && a.same_counts(b),
            _ => false,
        }
    }

    pub fn counts_as_normal(&self) -> (b: bool)
        ensures
            b == self.is_normal_or_amp(),
    {
        matches!(self, StatusType::Normal | StatusType::Amp(_, _))
    }
}

impl Clone for StatusType {
    fn clone(&self) -> (status: Self)
        ensures
            status.same_as(*self),
    {
        match self {
            StatusType::Normal => StatusType::Normal,
            StatusType::Timeout => StatusType::Timeout,
            StatusType::Crash => StatusType::Crash,
            StatusType::Skip => StatusType::Skip,
            StatusType::Error => StatusType::Error,
            StatusType::Amp(path, amp) => StatusType::Amp(*path, amp.clone()),
        }
    }
}

} // verus!
