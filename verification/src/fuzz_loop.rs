//! What a worker does with the entry that the depot hands out.
use vstd::prelude::*;
use crate::cond_stmt::{CondStmt, CondView};
use crate::depot::qpriority::QPriority;
use crate::fuzz_type::FuzzType;
use crate::stats::counter::Counter;

verus! {

/// What a worker does next.
pub enum Round {
    /// Nothing is left to fuzz: the queue is empty, or its best entry is
    /// finished.
    Stop,
    /// The condition is finished already and is handed back as it is.
    Retire(CondStmt),
    /// The condition is fuzzed by the strategy named, on the input that it
    /// belongs to.
    Fuzz(CondStmt, FuzzType),
}

/// The condition as it goes into a round: it has been fuzzed once more.
pub open spec fn entered(cond: CondView) -> CondView {
    CondView { fuzz_times: Counter::sum(cond.fuzz_times, 1), ..cond }
}

/// Decides what a worker does with the entry that the depot handed out.
pub fn plan_round(entry: Option<(CondStmt, QPriority)>) -> (round: Round)
    ensures
        match entry {
            None => round is Stop,
            Some((cond, priority)) => if priority.spec_is_done() {
                round is Stop
            } else if cond@.is_done() {
                round matches Round::Retire(c) && c@ == cond@
            } else {
                round matches Round::Fuzz(c, t) && c@ == entered(cond@) && t
                    == cond@.fuzz_type()
            },
        },
{
    match entry {
        None => Round::Stop,
        Some((cond, priority)) => {
            if priority.is_done() {
                Round::Stop
            } else if cond.is_done() {
                Round::Retire(cond)
            } else {
                let mut cond = cond;
                if cond.fuzz_times < usize::MAX {
                    cond.fuzz_times = cond.fuzz_times + 1;
                }
                let fuzz_type = cond.get_fuzz_type();
                Round::Fuzz(cond, fuzz_type)
            }
        },
    }
}

} // verus!
