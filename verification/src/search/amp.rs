//! The strategy for an input that already amplifies: every shorter prefix
//! of it is replayed, the longest first.
use vstd::prelude::*;
use crate::cond_stmt::{copy_bytes, CondStmt, CondView};
use crate::config::ENABLE_INPUT_AMP_EXPLORATION;
use crate::search::handler::SearchHandler;

verus! {

pub struct AmpFuzz {
    handler: SearchHandler,
    rest: Vec<u8>,
}

impl AmpFuzz {
    /// The condition that the strategy works on.
    pub closed spec fn cond(&self) -> CondView {
        self.handler.cond@
    }

    /// The input that was replayed last; before the first step, the input
    /// that the strategy started from.
    pub closed spec fn rest(&self) -> Seq<u8> {
        self.rest@
    }

    /// Starts the strategy on the handler's input.
    pub fn new(handler: SearchHandler) -> (amp: Self)
        ensures
            amp.cond() == handler.cond@,
            amp.rest() == handler.buf@,
    {
        let rest = copy_bytes(&handler.buf);
        AmpFuzz { handler, rest }
    }

    /// Makes one step of the strategy. While the input has bytes left, the
    /// last one is dropped and the shorter input is handed out to be
    /// replayed. Once nothing is left the condition is marked as finished
    /// and nothing is handed out.
    pub fn run(&mut self) -> (next: Option<Vec<u8>>)
        ensures
            match next {
                Some(input) => {
                    &&& ENABLE_INPUT_AMP_EXPLORATION
                    &&& old(self).rest().len() > 0
                    &&& input@ == old(self).rest().drop_last()
                    &&& final(self).rest() == input@
                    &&& final(self).cond() == old(self).cond()
                },
                None => {
                    &&& !ENABLE_INPUT_AMP_EXPLORATION || old(self).rest().len() == 0
                    &&& final(self).rest() == old(self).rest()
                    &&& final(self).cond() == old(self).cond().done()
                },
            },
    {
        if !ENABLE_INPUT_AMP_EXPLORATION || self.rest.len() == 0 {
            self.handler.cond.mark_as_done();
            return None;
        }
        let _ = self.rest.pop();
        Some(copy_bytes(&self.rest))
    }

    /// The condition that the strategy works on, for the executor to note on
    /// it what a replay came to.
    pub fn cond_mut(&mut self) -> (cond: &mut CondStmt)
        ensures
            cond@ == old(self).cond(),
            final(self).cond() == final(cond)@,
            final(self).rest() == old(self).rest(),
    {
        &mut self.handler.cond
    }

    /// Gives the handler back, with the condition as the strategy left it.
    pub fn into_handler(self) -> (handler: SearchHandler)
        ensures
            handler.cond@ == self.cond(),
    {
        self.handler
    }
}

/// After `k` steps the strategy has handed out the prefix that is `k`
/// bytes shorter than its input, and it hands out a prefix for each byte
/// of the input.
pub proof fn lemma_prefix_after_steps(input: Seq<u8>, k: nat)
    requires
        k <= input.len(),
    ensures
        shortened(input, k) == input.take(input.len() - k),
        shortened(input, k).len() == input.len() - k,
    decreases k,
{
    if k > 0 {
        lemma_prefix_after_steps(input, (k - 1) as nat);
        assert(input.take(input.len() - k + 1).drop_last() =~= input.take(input.len() - k));
    } else {
        assert(input.take(input.len() as int) =~= input);
    }
}

/// The input after `k` steps of the strategy.
pub open spec fn shortened(input: Seq<u8>, k: nat) -> Seq<u8>
    decreases k,
{
    if k == 0 {
        input
    } else {
        shortened(input, (k - 1) as nat).drop_last()
    }
}

} // verus!
