//! The raw condition record, as the instrumented target fills it in.
use vstd::prelude::*;
use vstd::std_specs::cmp::PartialEqSpecImpl;
use crate::defs::{
    COND_AFL_OP, COND_BASIC_MASK, COND_DONE_ST, COND_FALSE_ST, COND_FCMP_TRUE, COND_ICMP_EQ_OP,
    COND_ICMP_SGT_OP, COND_ICMP_SLE_OP, COND_MAX_EXPLOIT_OP, COND_MAX_EXPLORE_OP, COND_SIGN_MASK,
    COND_SW_OP, COND_TRUE_ST,
};

verus! {

/// One evaluation of a comparison site. The layout is fixed because the
/// record is shared with the target.
#[derive(Debug, Clone, Copy)]
pub struct CondStmtBase {
    pub cmpid: u32,
    pub thread_id: i32,
    pub context: u32,
    pub last_callsite: u32,
    pub order: u32,
    pub belong: u32,
    pub condition: u32,
    pub level: u32,
    pub op: u32,
    pub size: u32,
    pub lb1: u32,
    pub lb2: u32,
    pub arg1: u64,
    pub arg2: u64,
}

/// What two records must share to count as the same condition.
pub type CondIdentity = (u32, u32, u32, u32);

impl CondStmtBase {
    /// The tuple `(cmpid, context, order, op)` by which records are told apart.
    pub open spec fn identity(self) -> CondIdentity {
        (self.cmpid, self.context, self.order, self.op)
    }

    pub open spec fn spec_is_done(self) -> bool {
        self.condition == COND_DONE_ST
    }

    pub open spec fn spec_is_explore(self) -> bool {
        self.op <= COND_MAX_EXPLORE_OP
    }

    pub open spec fn spec_is_exploitable(self) -> bool {
        COND_MAX_EXPLORE_OP < self.op <= COND_MAX_EXPLOIT_OP
    }

    pub open spec fn spec_is_signed(self) -> bool {
        (self.op & COND_SIGN_MASK) > 0 || (COND_ICMP_SGT_OP <= (self.op & COND_BASIC_MASK)
            <= COND_ICMP_SLE_OP)
    }

    pub open spec fn spec_may_be_bool(self) -> bool {
        (self.op & 0xFF) == COND_ICMP_EQ_OP && self.arg1 <= 1 && self.arg2 <= 1
    }

    /// The condition after one flip: false and true change places, a finished
    /// condition stays finished, any other value falls back to false.
    pub open spec fn flipped(condition: u32) -> u32 {
        if condition == COND_FALSE_ST {
            COND_TRUE_ST
        } else if condition == COND_DONE_ST {
            COND_DONE_ST
        } else {
            COND_FALSE_ST
        }
    }

    /// The record with every field zero.
    pub open spec fn zeroed_value() -> CondStmtBase {
        CondStmtBase {
            cmpid: 0,
            thread_id: 0,
            context: 0,
            last_callsite: 0,
            order: 0,
            belong: 0,
            condition: 0,
            level: 0,
            op: 0,
            size: 0,
            lb1: 0,
            lb2: 0,
            arg1: 0,
            arg2: 0,
        }
    }

    /// A record with every field zero.
    pub fn zeroed() -> (base: Self)
        ensures
            base == Self::zeroed_value(),
    {
        CondStmtBase {
            cmpid: 0,
            thread_id: 0,
            context: 0,
            last_callsite: 0,
            order: 0,
            belong: 0,
            condition: 0,
            level: 0,
            op: 0,
            size: 0,
            lb1: 0,
            lb2: 0,
            arg1: 0,
            arg2: 0,
        }
    }

    /// Turns a false condition into a true one and back. A finished
    /// condition is left as it is.
    pub fn flip_condition(&mut self)
        ensures
            final(self).condition == Self::flipped(old(self).condition),
            *final(self) == (CondStmtBase { condition: final(self).condition, ..*old(self) }),
    {
        if self.condition == COND_FALSE_ST {
            self.condition = COND_TRUE_ST;
        } else if self.condition != COND_DONE_ST {
            self.condition = COND_FALSE_ST;
        }
    }

    pub fn is_explore(&self) -> (b: bool)
        ensures
            b == self.spec_is_explore(),
    {
        self.op <= COND_MAX_EXPLORE_OP
    }

    pub fn is_exploitable(&self) -> (b: bool)
        ensures
            b == self.spec_is_exploitable(),
    {
        self.op > COND_MAX_EXPLORE_OP && self.op <= COND_MAX_EXPLOIT_OP
    }

    pub fn is_signed(&self) -> (b: bool)
        ensures
            b == self.spec_is_signed(),
    {
        (self.op & COND_SIGN_MASK) > 0 || ((self.op & COND_BASIC_MASK) >= COND_ICMP_SGT_OP && (
        self.op & COND_BASIC_MASK) <= COND_ICMP_SLE_OP)
    }

    pub fn is_afl(&self) -> (b: bool)
        ensures
            b == (self.op == COND_AFL_OP),
    {
        self.op == COND_AFL_OP
    }

    pub fn may_be_bool(&self) -> (b: bool)
        ensures
            b == self.spec_may_be_bool(),
    {
        self.op & 0xFF == COND_ICMP_EQ_OP && self.arg1 <= 1 && self.arg2 <= 1
    }

    pub fn is_float(&self) -> (b: bool)
        ensures
            b == ((self.op & COND_BASIC_MASK) <= COND_FCMP_TRUE),
    {
        (self.op & COND_BASIC_MASK) <= COND_FCMP_TRUE
    }

    pub fn is_switch(&self) -> (b: bool)
        ensures
            b == ((self.op & COND_BASIC_MASK) == COND_SW_OP),
    {
        (self.op & COND_BASIC_MASK) == COND_SW_OP
    }

    pub fn is_done(&self) -> (b: bool)
        ensures
            b == self.spec_is_done(),
    {
        self.condition == COND_DONE_ST
    }
}

impl Default for CondStmtBase {
    fn default() -> (base: Self)
        ensures
            base == CondStmtBase::zeroed_value(),
    {
        CondStmtBase::zeroed()
    }
}

impl PartialEq for CondStmtBase {
    /// Two records are equal when they name the same condition, whatever
    /// their other fields hold.
    fn eq(&self, other: &CondStmtBase) -> (b: bool) {
        self.cmpid == other.cmpid && self.context == other.context && self.order == other.order
            && self.op == other.op
    }
}

impl PartialEqSpecImpl for CondStmtBase {
    open spec fn obeys_eq_spec() -> bool {
        true
    }

    open spec fn eq_spec(&self, other: &CondStmtBase) -> bool {
        self.cmpid == other.cmpid && self.context == other.context && self.order == other.order
            && self.op == other.op
    }
}

impl Eq for CondStmtBase {

}

/// Flipping twice gives back a condition that was false or true, and a
/// finished condition never leaves that state.
pub proof fn lemma_flip_involution(condition: u32)
    ensures
        condition == COND_FALSE_ST || condition == COND_TRUE_ST ==> CondStmtBase::flipped(
            CondStmtBase::flipped(condition),
        ) == condition,
        condition == COND_DONE_ST ==> CondStmtBase::flipped(condition) == COND_DONE_ST,
        CondStmtBase::flipped(condition) == COND_DONE_ST ==> condition == COND_DONE_ST,
{
}

} // verus!
