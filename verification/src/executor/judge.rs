//! What the executor concludes from the output that the target reported
//! for the condition under search, and from the outcome of the run.
use vstd::prelude::*;
use crate::cond_stmt::{CondState, CondStmt, CondView};
use crate::config::{MAX_INVARIABLE_NUM, TMOUT_SKIP};
use crate::defs::UNREACHABLE;
use crate::stats::counter::Counter;
use crate::status_type::StatusType;

verus! {

/// What the executor remembers from run to run.
pub struct Executor {
    pub tmout_cnt: usize,
    pub invariable_cnt: usize,
    pub last_f: u64,
    pub has_new_path: bool,
    pub has_good_amp: bool,
    pub is_directed: bool,
}

/// The number of runs in a row that reported the same output, after one
/// more run reported `output`: a changed output starts a new row.
pub open spec fn invariable_after(count: usize, last_f: u64, output: u64) -> usize {
    if output == last_f {
        Counter::sum(count, 1)
    } else {
        1
    }
}

/// The output has been the same for as many runs in a row as make a
/// condition invariable.
pub open spec fn is_invariable(count: usize, last_f: u64, output: u64) -> bool {
    invariable_after(count, last_f, output) >= MAX_INVARIABLE_NUM
}

/// The count of timeouts in a row after a run with this outcome; a failed
/// run counts as a timeout, and the count starts over once the condition
/// is given up.
pub open spec fn timeouts_after(count: usize, status: StatusType) -> usize {
    if status is Timeout || status is Error {
        if Counter::sum(count, 1) >= TMOUT_SKIP {
            0
        } else {
            Counter::sum(count, 1)
        }
    } else {
        0
    }
}

/// The condition is given up for its timeouts.
pub open spec fn gives_up(count: usize, status: StatusType) -> bool {
    (status is Timeout || status is Error) && Counter::sum(count, 1) >= TMOUT_SKIP
}

impl Executor {
    /// The state before the first run.
    pub fn new(is_directed: bool) -> (exec: Self)
        ensures
            exec == (Executor {
                tmout_cnt: 0,
                invariable_cnt: 0,
                last_f: UNREACHABLE,
                has_new_path: false,
                has_good_amp: false,
                is_directed,
            }),
    {
        Executor {
            tmout_cnt: 0,
            invariable_cnt: 0,
            last_f: UNREACHABLE,
            has_new_path: false,
            has_good_amp: false,
            is_directed,
        }
    }

    pub fn set_directed(&mut self, b: bool)
        ensures
            *final(self) == (Executor { is_directed: b, ..*old(self) }),
    {
        self.is_directed = b;
    }

    /// Before each run: nothing new has been seen yet.
    pub fn run_init(&mut self)
        ensures
            *final(self) == (Executor { has_new_path: false, ..*old(self) }),
    {
        self.has_new_path = false;
    }

    /// At the end of a round: the counts of the round start over.
    pub fn finish_round(&mut self)
        ensures
            *final(self) == (Executor {
                tmout_cnt: 0,
                invariable_cnt: 0,
                last_f: UNREACHABLE,
                ..*old(self)
            }),
    {
        self.tmout_cnt = 0;
        self.invariable_cnt = 0;
        self.last_f = UNREACHABLE;
    }

    /// A condition that the target did not reach on its very first run is
    /// marked as inconsistent: the fast and the tracking build disagree.
    /// `first_run` says that this is the first run of the round.
    pub fn check_consistent(&self, output: u64, cond: &mut CondStmt, first_run: bool)
        ensures
            final(cond)@ == (if output == UNREACHABLE && old(cond).fuzz_times == 1 && first_run
                && old(cond).state.spec_is_initial() {
                CondView { is_consistent: false, ..old(cond)@ }
            } else {
                old(cond)@
            }),
    {
        if output == UNREACHABLE && cond.is_first_time() && first_run && cond.state.is_initial() {
            cond.is_consistent = false;
        }
    }

    /// Counts the runs in a row that reported the same output. With the
    /// `MAX_INVARIABLE_NUM`-th such run the condition is no longer
    /// desirable, and the round is skipped unless the condition is in the
    /// deterministic or the one-byte state.
    pub fn check_invariable(&mut self, output: u64, cond: &mut CondStmt) -> (skip: bool)
        ensures
            *final(self) == (Executor {
                invariable_cnt: invariable_after(old(self).invariable_cnt, old(self).last_f, output),
                last_f: output,
                ..*old(self)
            }),
            final(cond)@ == (if is_invariable(old(self).invariable_cnt, old(self).last_f, output) {
                CondView { is_desirable: false, ..old(cond)@ }
            } else {
                old(cond)@
            }),
            skip == (is_invariable(old(self).invariable_cnt, old(self).last_f, output) && old(
                cond,
            ).state != CondState::Det && old(cond).state != CondState::OneByte),
    {
        let mut skip = false;
        if output == self.last_f {
            if self.invariable_cnt < usize::MAX {
                self.invariable_cnt = self.invariable_cnt + 1;
            }
        } else {
            self.invariable_cnt = 1;
        }
        if self.invariable_cnt >= MAX_INVARIABLE_NUM {
            if cond.is_desirable {
                cond.is_desirable = false;
            }
            if !cond.state.is_det() && !cond.state.is_one_byte() {
                skip = true;
            }
        }
        self.last_f = output;
        skip
    }

    /// An output of zero at a condition that is not finished means that the
    /// run met the condition exactly: the condition is marked as finished
    /// and the run as one that explored it.
    pub fn check_explored(&self, cond: &mut CondStmt, output: u64) -> (explored: bool)
        ensures
            explored == (output == 0 && !old(cond)@.is_done()),
            final(cond)@ == (if explored {
                old(cond)@.done()
            } else {
                old(cond)@
            }),
    {
        if output == 0 && !cond.is_done() {
            cond.mark_as_done();
            true
        } else {
            false
        }
    }

    /// Counts timeouts in a row. A failed run counts as a timeout and asks
    /// for the fork server to be set up anew. After `TMOUT_SKIP` timeouts
    /// the condition is given up and the run is skipped. Returns the
    /// outcome to report and whether the fork server is to be set up anew.
    pub fn check_timeout(&mut self, status: &StatusType, cond: &mut CondStmt) -> (r: (
        StatusType,
        bool,
    ))
        ensures
            *final(self) == (Executor {
                tmout_cnt: timeouts_after(old(self).tmout_cnt, *status),
                ..*old(self)
            }),
            r.1 == (*status is Error),
            final(cond)@ == (if gives_up(old(self).tmout_cnt, *status) {
                CondView { state: CondState::Timeout, ..old(cond)@ }
            } else {
                old(cond)@
            }),
            gives_up(old(self).tmout_cnt, *status) ==> r.0 is Skip,
            !gives_up(old(self).tmout_cnt, *status) ==> (if *status is Error {
                r.0 is Timeout
            } else {
                r.0.same_as(*status)
            }),
    {
        let rebind = matches!(status, StatusType::Error);
        let timed_out = matches!(status, StatusType::Error | StatusType::Timeout);
        if timed_out {
            if self.tmout_cnt < usize::MAX {
                self.tmout_cnt = self.tmout_cnt + 1;
            }
            if self.tmout_cnt >= TMOUT_SKIP {
                cond.to_timeout();
                self.tmout_cnt = 0;
                return (StatusType::Skip, rebind);
            }
            return (StatusType::Timeout, rebind);
        }
        self.tmout_cnt = 0;
        (status.clone(), rebind)
    }

    /// What a run with a condition under search comes to, once the target
    /// has reported its output: whether the condition was explored, and
    /// whether the rest of the round is skipped.
    pub fn judge_output(&mut self, output: u64, cond: &mut CondStmt, first_run: bool) -> (r: (
        bool,
        bool,
    ))
        ensures
            r.0 == (output == 0 && !old(cond)@.is_done()),
            r.1 == (r.0 || (is_invariable(old(self).invariable_cnt, old(self).last_f, output)
                && old(cond).state != CondState::Det && old(cond).state != CondState::OneByte)),
            *final(self) == (Executor {
                invariable_cnt: invariable_after(old(self).invariable_cnt, old(self).last_f, output),
                last_f: output,
                ..*old(self)
            }),
            r.0 ==> final(cond)@.is_done(),
            old(cond)@.is_done() ==> final(cond)@.is_done(),
    {
        let explored = self.check_explored(cond, output);
        let skip = self.check_invariable(output, cond);
        self.check_consistent(output, cond, first_run);
        (explored, explored || skip)
    }

    /// The outcome that a run with a condition reports in the end: a run
    /// whose round is skipped reports that, whatever else it came to.
    pub fn finish_run(&mut self, status: &StatusType, cond: &mut CondStmt, skip: bool) -> (r: (
        StatusType,
        bool,
    ))
        ensures
            *final(self) == (Executor {
                tmout_cnt: timeouts_after(old(self).tmout_cnt, *status),
                ..*old(self)
            }),
            r.1 == (*status is Error),
            skip || gives_up(old(self).tmout_cnt, *status) ==> r.0 is Skip,
            !skip && !gives_up(old(self).tmout_cnt, *status) ==> (if *status is Error {
                r.0 is Timeout
            } else {
                r.0.same_as(*status)
            }),
            final(cond)@ == (if gives_up(old(self).tmout_cnt, *status) {
                CondView { state: CondState::Timeout, ..old(cond)@ }
            } else {
                old(cond)@
            }),
    {
        let (status, rebind) = self.check_timeout(status, cond);
        if skip {
            (StatusType::Skip, rebind)
        } else {
            (status, rebind)
        }
    }
}

} // verus!
