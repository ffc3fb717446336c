//! Ranges of input bytes that taint a value.
use vstd::prelude::*;

verus! {

/// A half-open range `begin..end` of input offsets, with a hint whether the
/// bytes were read as a signed value.
#[derive(Debug, Clone, Copy, PartialEq, Eq, Structural)]
pub struct TagSeg {
    pub begin: u32,
    pub end: u32,
    pub sign: bool,
}

impl TagSeg {
    /// Number of input bytes in the range; zero where `end` lies before
    /// `begin`.
    pub open spec fn spec_len(self) -> nat {
        if self.end >= self.begin {
            (self.end - self.begin) as nat
        } else {
            0
        }
    }

    /// Number of input bytes in the range.
    pub fn len(&self) -> (n: u32)
        ensures
            n == self.spec_len(),
    {
        if self.end >= self.begin {
            self.end - self.begin
        } else {
            0
        }
    }
}

} // verus!
