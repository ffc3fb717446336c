//! A condition as the fuzzer keeps it: the raw record, the input bytes that
//! taint it, and where the search on it stands.
use vstd::prelude::*;
use vstd::std_specs::cmp::PartialEqSpecImpl;
use crate::cond_stmt_base::CondStmtBase;
use crate::conv::{low32, low32_of, wide64, wide64_of};
use crate::defs::{
    COND_AFL_OP, COND_AMP_OP, COND_BOOL_MASK, COND_DONE_ST, COND_FN_OP, COND_LEN_OP,
};
use crate::fuzz_type::FuzzType;
use crate::tag::TagSeg;

verus! {

/// How far the search on a condition has come.
#[derive(Debug, Clone, Copy, PartialEq, Eq, Structural)]
pub enum CondState {
    /// Nothing tried yet beyond the primary offsets.
    Initial,
    /// The secondary offsets are being tried.
    OffsetOpt,
    /// Primary and secondary offsets are tried together.
    OffsetAll,
    /// Every combination of offsets has been tried.
    OffsetAllEnd,
    /// A single input byte decides the condition.
    OneByte,
    /// No strategy moved the condition.
    Unsolvable,
    /// The deterministic stage is running.
    Det,
    /// The target timed out too often on this condition.
    Timeout,
}

impl CondState {
    pub open spec fn spec_is_initial(self) -> bool {
        self == CondState::Initial || self == CondState::OneByte
    }

    pub fn is_initial(&self) -> (b: bool)
        ensures
            b == self.spec_is_initial(),
    {
        matches!(self, CondState::Initial | CondState::OneByte)
    }

    pub fn is_det(&self) -> (b: bool)
        ensures
            b == (*self == CondState::Det),
    {
        matches!(self, CondState::Det)
    }

    pub fn is_one_byte(&self) -> (b: bool)
        ensures
            b == (*self == CondState::OneByte),
    {
        matches!(self, CondState::OneByte)
    }

    pub fn is_unsolvable(&self) -> (b: bool)
        ensures
            b == (*self == CondState::Unsolvable),
    {
        matches!(self, CondState::Unsolvable)
    }

    pub fn is_timeout(&self) -> (b: bool)
        ensures
            b == (*self == CondState::Timeout),
    {
        matches!(self, CondState::Timeout)
    }
}

impl Default for CondState {
    fn default() -> (s: Self)
        ensures
            s == CondState::Initial,
    {
        CondState::Initial
    }
}

/// A condition with everything the fuzzer tracks around it.
#[derive(Debug)]
pub struct CondStmt {
    pub base: CondStmtBase,
    pub offsets: Vec<TagSeg>,
    pub offsets_opt: Vec<TagSeg>,
    pub variables: Vec<u8>,
    pub speed: u32,
    pub is_desirable: bool,
    pub is_consistent: bool,
    pub is_target: bool,
    pub fuzz_times: usize,
    pub state: CondState,
    pub num_minimal_optima: usize,
    pub linear: bool,
}

/// The value of a condition, with its byte lists as sequences.
pub struct CondView {
    pub base: CondStmtBase,
    pub offsets: Seq<TagSeg>,
    pub offsets_opt: Seq<TagSeg>,
    pub variables: Seq<u8>,
    pub speed: u32,
    pub is_desirable: bool,
    pub is_consistent: bool,
    pub is_target: bool,
    pub fuzz_times: usize,
    pub state: CondState,
    pub num_minimal_optima: usize,
    pub linear: bool,
}

impl View for CondStmt {
    type V = CondView;

    open spec fn view(&self) -> CondView {
        CondView {
            base: self.base,
            offsets: self.offsets@,
            offsets_opt: self.offsets_opt@,
            variables: self.variables@,
            speed: self.speed,
            is_desirable: self.is_desirable,
            is_consistent: self.is_consistent,
            is_target: self.is_target,
            fuzz_times: self.fuzz_times,
            state: self.state,
            num_minimal_optima: self.num_minimal_optima,
            linear: self.linear,
        }
    }
}

impl CondView {
    /// A fresh condition around `base`: no taint, desirable, consistent.
    pub open spec fn fresh(base: CondStmtBase) -> CondView {
        CondView {
            base,
            offsets: Seq::empty(),
            offsets_opt: Seq::empty(),
            variables: Seq::empty(),
            speed: 0,
            is_desirable: true,
            is_consistent: true,
            is_target: false,
            fuzz_times: 0,
            state: CondState::Initial,
            num_minimal_optima: 0,
            linear: false,
        }
    }

    /// The condition with its byte lists emptied.
    pub open spec fn cleared(self) -> CondView {
        CondView {
            offsets: Seq::empty(),
            offsets_opt: Seq::empty(),
            variables: Seq::empty(),
            ..self
        }
    }

    /// The condition marked as finished: its state of exploration is done
    /// and its byte lists are empty.
    pub open spec fn done(self) -> CondView {
        CondView {
            base: CondStmtBase { condition: COND_DONE_ST, ..self.base },
            ..self.cleared()
        }
    }

    pub open spec fn is_done(self) -> bool {
        self.base.condition == COND_DONE_ST
    }

    /// Nothing more will be tried on the condition.
    pub open spec fn is_discarded(self) -> bool {
        self.is_done() || self.state == CondState::Unsolvable || self.state == CondState::Timeout
    }

    /// The strategy that the condition's operation calls for.
    pub open spec fn fuzz_type(self) -> FuzzType {
        if self.base.op == COND_AFL_OP {
            FuzzType::AFLFuzz
        } else if self.base.op == COND_LEN_OP {
            FuzzType::LenFuzz
        } else if self.base.op == COND_FN_OP {
            FuzzType::CmpFnFuzz
        } else if self.base.op == COND_AMP_OP {
            FuzzType::AmpFuzz
        } else if self.base.spec_is_explore() {
            FuzzType::ExploreFuzz
        } else if self.base.spec_is_exploitable() {
            FuzzType::ExploitFuzz
        } else {
            FuzzType::OtherFuzz
        }
    }
}

/// The values of a list of conditions.
pub open spec fn views(conds: Seq<CondStmt>) -> Seq<CondView> {
    conds.map_values(|cond: CondStmt| cond@)
}

/// A copy of a list of tainted ranges.
pub fn copy_segs(segs: &Vec<TagSeg>) -> (out: Vec<TagSeg>)
    ensures
        out@ == segs@,
{
    let mut out: Vec<TagSeg> = Vec::new();
    let mut i: usize = 0;
    while i < segs.len()
        invariant
            i <= segs.len(),
            out@ == segs@.take(i as int),
        decreases segs.len() - i,
    {
        out.push(segs[i]);
        proof {
            assert(segs@.take(i + 1) =~= segs@.take(i as int).push(segs@[i as int]));
        }
        i = i + 1;
    }
    proof {
        assert(segs@.take(i as int) =~= segs@);
    }
    out
}

/// A copy of a list of bytes.
pub fn copy_bytes(bytes: &Vec<u8>) -> (out: Vec<u8>)
    ensures
        out@ == bytes@,
{
    let mut out: Vec<u8> = Vec::new();
    let mut i: usize = 0;
    while i < bytes.len()
        invariant
            i <= bytes.len(),
            out@ == bytes@.take(i as int),
        decreases bytes.len() - i,
    {
        out.push(bytes[i]);
        proof {
            assert(bytes@.take(i + 1) =~= bytes@.take(i as int).push(bytes@[i as int]));
        }
        i = i + 1;
    }
    proof {
        assert(bytes@.take(i as int) =~= bytes@);
    }
    out
}

impl CondStmt {
    /// A fresh condition around a zeroed record.
    pub fn new() -> (cond: Self)
        ensures
            cond@ == CondView::fresh(CondStmtBase::zeroed_value()),
    {
        Self::from(CondStmtBase::zeroed())
    }

    /// A fresh condition around `cond_base`.
    pub fn from(cond_base: CondStmtBase) -> (cond: Self)
        ensures
            cond@ == CondView::fresh(cond_base),
    {
        CondStmt {
            base: cond_base,
            offsets: Vec::new(),
            offsets_opt: Vec::new(),
            variables: Vec::new(),
            speed: 0,
            is_desirable: true,
            is_consistent: true,
            is_target: false,
            fuzz_times: 0,
            state: CondState::Initial,
            num_minimal_optima: 0,
            linear: false,
        }
    }

    pub fn get_fuzz_type(&self) -> (t: FuzzType)
        ensures
            t == self@.fuzz_type(),
    {
        if self.base.op == COND_AFL_OP {
            FuzzType::AFLFuzz
        } else if self.base.op == COND_LEN_OP {
            FuzzType::LenFuzz
        } else if self.base.op == COND_FN_OP {
            FuzzType::CmpFnFuzz
        } else if self.base.op == COND_AMP_OP {
            FuzzType::AmpFuzz
        } else if self.base.is_explore() {
            FuzzType::ExploreFuzz
        } else if self.base.is_exploitable() {
            FuzzType::ExploitFuzz
        } else {
            FuzzType::OtherFuzz
        }
    }

    pub fn is_tainted(&self) -> (b: bool)
        ensures
            b == (self.offsets@.len() > 0),
    {
        self.offsets.len() > 0
    }

    pub fn is_bool(&self) -> (b: bool)
        ensures
            b == ((self.base.spec_may_be_bool() && !self.is_desirable) || (self.base.op
                & COND_BOOL_MASK) > 0),
    {
        (self.base.may_be_bool() && !self.is_desirable) || (self.base.op & COND_BOOL_MASK) > 0
    }

    /// Marks the condition as finished and drops its byte lists.
    pub fn mark_as_done(&mut self)
        ensures
            final(self)@ == old(self)@.done(),
            final(self)@.is_done(),
    {
        self.base.condition = COND_DONE_ST;
        self.clear();
    }

    pub fn set_target(&mut self, b: bool)
        ensures
            final(self)@ == (CondView { is_target: b, ..old(self)@ }),
    {
        self.is_target = b;
    }

    /// Drops the byte lists.
    pub fn clear(&mut self)
        ensures
            final(self)@ == old(self)@.cleared(),
    {
        self.offsets = Vec::new();
        self.offsets_opt = Vec::new();
        self.variables = Vec::new();
    }

    pub fn is_discarded(&self) -> (b: bool)
        ensures
            b == self@.is_discarded(),
    {
        self.is_done() || self.state.is_unsolvable() || self.state.is_timeout()
    }

    pub fn is_first_time(&self) -> (b: bool)
        ensures
            b == (self.fuzz_times == 1),
    {
        self.fuzz_times == 1
    }

    /// The synthetic condition that hands input `id` to the AFL strategy.
    pub fn get_afl_cond(id: usize, speed: u32, edge_num: usize) -> (cond: Self)
        ensures
            cond@ == (CondView {
                speed,
                base: CondStmtBase {
                    op: COND_AFL_OP,
                    cmpid: low32_of(id),
                    belong: low32_of(id),
                    arg1: wide64_of(edge_num),
                    ..CondStmtBase::zeroed_value()
                },
                ..CondView::fresh(CondStmtBase::zeroed_value())
            }),
    {
        let mut afl_cond = Self::new();
        afl_cond.speed = speed;
        afl_cond.base.op = COND_AFL_OP;
        afl_cond.base.cmpid = low32(id);
        afl_cond.base.belong = low32(id);
        afl_cond.base.context = 0;
        afl_cond.base.order = 0;
        afl_cond.base.arg1 = wide64(edge_num);
        afl_cond
    }

    /// The synthetic condition that hands input `id` to the amplification
    /// strategy.
    pub fn get_amp_cond(id: usize) -> (cond: Self)
        ensures
            cond@ == CondView::fresh(
                CondStmtBase {
                    op: COND_AMP_OP,
                    cmpid: low32_of(id),
                    belong: low32_of(id),
                    ..CondStmtBase::zeroed_value()
                },
            ),
    {
        let mut amp_cond = Self::new();
        amp_cond.base.op = COND_AMP_OP;
        amp_cond.base.cmpid = low32(id);
        amp_cond.base.belong = low32(id);
        amp_cond
    }

    pub fn is_done(&self) -> (b: bool)
        ensures
            b == self@.is_done(),
    {
        self.base.is_done()
    }

    /// Gives the condition up after too many timeouts.
    pub fn to_timeout(&mut self)
        ensures
            final(self)@ == (CondView { state: CondState::Timeout, ..old(self)@ }),
    {
        self.state = CondState::Timeout;
    }

    /// Gives the condition up as unsolvable.
    pub fn to_unsolvable(&mut self)
        ensures
            final(self)@ == (CondView { state: CondState::Unsolvable, ..old(self)@ }),
    {
        self.state = CondState::Unsolvable;
    }
}

impl Clone for CondStmt {
    fn clone(&self) -> (cond: Self)
        ensures
            cond@ == self@,
    {
        CondStmt {
            base: self.base,
            offsets: copy_segs(&self.offsets),
            offsets_opt: copy_segs(&self.offsets_opt),
            variables: copy_bytes(&self.variables),
            speed: self.speed,
            is_desirable: self.is_desirable,
            is_consistent: self.is_consistent,
            is_target: self.is_target,
            fuzz_times: self.fuzz_times,
            state: self.state,
            num_minimal_optima: self.num_minimal_optima,
            linear: self.linear,
        }
    }
}

impl Default for CondStmt {
    fn default() -> (cond: Self)
        ensures
            cond@ == CondView::fresh(CondStmtBase::zeroed_value()),
    {
        CondStmt::new()
    }
}

impl PartialEq for CondStmt {
    /// Two conditions are equal when their records name the same condition.
    fn eq(&self, other: &CondStmt) -> (b: bool) {
        self.base.cmpid == other.base.cmpid && self.base.context == other.base.context
            && self.base.order == other.base.order && self.base.op == other.base.op
    }
}

impl PartialEqSpecImpl for CondStmt {
    open spec fn obeys_eq_spec() -> bool {
        true
    }

    open spec fn eq_spec(&self, other: &CondStmt) -> bool {
        self.base.cmpid == other.base.cmpid && self.base.context == other.base.context
            && self.base.order == other.base.order && self.base.op == other.base.op
    }
}

impl Eq for CondStmt {

}

/// A condition marked as finished stays finished under every later flip of
/// its record, and holds no byte lists.
pub proof fn lemma_done_is_final(cond: CondView)
    ensures
        cond.done().is_done(),
        cond.done().offsets.len() == 0,
        cond.done().offsets_opt.len() == 0,
        cond.done().variables.len() == 0,
        cond.done().is_discarded(),
        CondStmtBase::flipped(cond.done().base.condition) == COND_DONE_ST,
        cond.done().done() == cond.done(),
{
}

} // verus!
