//! The priority of a condition in the queue.
use vstd::prelude::*;
use crate::defs::COND_AFL_OP;

verus! {

/// Level of a condition that was never handed out.
pub const INIT_PRIORITY: u16 = 0;

/// Level at which a whole-input condition starts.
pub const AFL_INIT_PRIORITY: u16 = 1;

/// Level of a condition that is finished.
pub const DONE_PRIORITY: u16 = 0xFFFF;

/// Where a condition stands in the queue. A lower level comes first; at
/// one level the shorter distance to a target comes first. A finished
/// condition comes after every other.
#[derive(Debug, Clone, Copy, PartialEq, Eq, Structural)]
pub struct QPriority {
    pub level: u16,
    pub distance: u32,
}

impl QPriority {
    /// The priority of a finished condition.
    pub open spec fn done_value() -> QPriority {
        QPriority { level: DONE_PRIORITY, distance: 0 }
    }

    /// The priority at which a condition with operation `op` enters the
    /// queue, `distance` away from the nearest target.
    pub open spec fn initial(op: u32, distance: u32) -> QPriority {
        QPriority {
            level: if op == COND_AFL_OP {
                AFL_INIT_PRIORITY
            } else {
                INIT_PRIORITY
            },
            distance,
        }
    }

    pub open spec fn spec_is_done(self) -> bool {
        self.level == DONE_PRIORITY
    }

    /// The priority after the condition was handed out once more: one level
    /// down, two for a whole-input condition, and never as far as the level
    /// of the finished.
    pub open spec fn demoted(self, op: u32) -> QPriority {
        if self.spec_is_done() {
            self
        } else {
            let step: int = if op == COND_AFL_OP {
                2
            } else {
                1
            };
            QPriority {
                level: if self.level + step >= DONE_PRIORITY {
                    (DONE_PRIORITY - 1) as u16
                } else {
                    (self.level + step) as u16
                },
                distance: self.distance,
            }
        }
    }

    /// The number by which the queue orders priorities: the larger comes
    /// first.
    pub open spec fn rank(self) -> u64 {
        ((DONE_PRIORITY - self.level) * 0x1_0000_0000 + (0xFFFF_FFFF - self.distance)) as u64
    }

    /// `self` comes before `other` in the queue.
    pub open spec fn before(self, other: QPriority) -> bool {
        self.level < other.level || (self.level == other.level && self.distance < other.distance)
    }

    pub fn init(op: u32) -> (p: Self)
        ensures
            p == Self::initial(op, 0),
    {
        Self::init_distance(op, 0)
    }

    /// The priority at which a condition enters the queue.
    pub fn init_distance(op: u32, distance: u32) -> (p: Self)
        ensures
            p == Self::initial(op, distance),
    {
        if op == COND_AFL_OP {
            QPriority { level: AFL_INIT_PRIORITY, distance }
        } else {
            QPriority { level: INIT_PRIORITY, distance }
        }
    }

    /// The same level at a new distance.
    pub fn new_distance(&self, distance: u32) -> (p: Self)
        ensures
            p == (QPriority { level: self.level, distance }),
    {
        QPriority { level: self.level, distance }
    }

    /// The priority after the condition was handed out once more.
    pub fn inc(&self, op: u32) -> (p: Self)
        ensures
            p == self.demoted(op),
    {
        if self.level == DONE_PRIORITY {
            *self
        } else {
            let step: u16 = if op == COND_AFL_OP {
                2
            } else {
                1
            };
            let level: u16 = if self.level >= DONE_PRIORITY - step {
                DONE_PRIORITY - 1
            } else {
                self.level + step
            };
            QPriority { level, distance: self.distance }
        }
    }

    pub fn done() -> (p: Self)
        ensures
            p == Self::done_value(),
    {
        QPriority { level: DONE_PRIORITY, distance: 0 }
    }

    pub fn is_done(&self) -> (b: bool)
        ensures
            b == self.spec_is_done(),
    {
        self.level == DONE_PRIORITY
    }

    /// The number by which the queue orders priorities.
    pub fn to_rank(&self) -> (r: u64)
        ensures
            r == self.rank(),
    {
        let high: u64 = (DONE_PRIORITY - self.level) as u64;
        let low: u64 = (0xFFFF_FFFFu32 - self.distance) as u64;
        high * 0x1_0000_0000u64 + low
    }
}

/// The rank orders priorities as the queue does: a priority comes before
/// another exactly when its rank is the larger, and two priorities with
/// one rank are the same.
pub proof fn lemma_rank_orders(a: QPriority, b: QPriority)
    ensures
        a.before(b) <==> a.rank() > b.rank(),
        a.rank() == b.rank() <==> a == b,
        !a.spec_is_done() && b.spec_is_done() ==> a.before(b),
{
}

/// Handing a condition out never moves it forward, and never makes it look
/// finished.
pub proof fn lemma_demoted(p: QPriority, op: u32)
    ensures
        !p.demoted(op).before(p),
        p.demoted(op).spec_is_done() == p.spec_is_done(),
        p.demoted(op).distance == p.distance,
{
}

} // verus!
