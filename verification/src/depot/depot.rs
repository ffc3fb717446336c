//! The depot: the queue of conditions, the numbering of the inputs kept
//! on disk, and the control-flow graph that gives conditions their distance.
use vstd::prelude::*;
use crate::cond_stmt::{views, CondStmt, CondView};
use crate::conv::{nth, upto};
use crate::depot::qpriority::QPriority;
use crate::depot::queue::{entries_after, entry_updated, key_of, CondQueue, Entries};
use crate::depot::random::{pick_input, random_word};
use crate::dyncfg::cfg::ControlFlowGraph;
use crate::status_type::StatusType;

verus! {

/// The directory that takes a kept input.
#[derive(Debug, Clone, Copy, PartialEq, Eq, Structural)]
pub enum SaveDir {
    /// `queue/`: inputs that are fuzzed further.
    Inputs,
    /// `hangs/`
    Hangs,
    /// `crashes/`
    Crashes,
}

/// What is to be written for a run that is kept.
#[derive(Debug, Clone, Copy, PartialEq, Eq, Structural)]
pub struct Saved {
    /// The number of the input; zero where nothing is written.
    pub id: usize,
    /// The directory that takes the file `id_<id>`.
    pub dir: Option<SaveDir>,
    /// The input is also written to `amps/`.
    pub amp: bool,
}

pub struct Depot {
    pub queue: CondQueue,
    pub num_inputs: usize,
    pub num_hangs: usize,
    pub num_crashes: usize,
    pub num_amps: usize,
    pub cfg: ControlFlowGraph,
}

/// The counter after one more was counted; it starts over after the
/// largest machine word.
pub open spec fn counted(n: usize) -> usize {
    if n < usize::MAX {
        (n + 1) as usize
    } else {
        0
    }
}

fn count(n: usize) -> (m: usize)
    ensures
        m == counted(n),
{
    if n < usize::MAX {
        n + 1
    } else {
        0
    }
}

/// The queue after the conditions arrived one after the other, each with
/// the score of its site in `cfg` as distance.
pub open spec fn entries_after_all(entries: Entries, conds: Seq<CondView>, cfg: ControlFlowGraph) -> Entries
    decreases conds.len(),
{
    if conds.len() == 0 {
        entries
    } else {
        entries_after(
            entries_after_all(entries, conds.drop_last(), cfg),
            conds.last(),
            cfg.score(conds.last().base.cmpid),
        )
    }
}

impl Depot {
    pub open spec fn wf(&self) -> bool {
        self.queue.wf()
    }

    /// What `save` answers for a run of this outcome. `amp_is_known` says
    /// that the file of an amplifying input exists already.
    pub open spec fn saved(self, status: StatusType, amp_is_known: bool) -> Saved {
        match status {
            StatusType::Normal => Saved {
                id: self.num_inputs,
                dir: Some(SaveDir::Inputs),
                amp: false,
            },
            StatusType::Timeout => Saved { id: self.num_hangs, dir: Some(SaveDir::Hangs), amp: false },
            StatusType::Crash => Saved {
                id: self.num_crashes,
                dir: Some(SaveDir::Crashes),
                amp: false,
            },
            StatusType::Amp(_, _) => if amp_is_known {
                Saved { id: 0, dir: None, amp: false }
            } else {
                Saved { id: self.num_inputs, dir: Some(SaveDir::Inputs), amp: true }
            },
            _ => Saved { id: 0, dir: None, amp: false },
        }
    }

    /// A depot without conditions or inputs.
    pub fn new(cfg: ControlFlowGraph) -> (depot: Self)
        ensures
            depot.wf(),
            depot.queue.entries() == Map::<u128, (CondView, QPriority)>::empty(),
            depot.num_inputs == 0,
            depot.num_hangs == 0,
            depot.num_crashes == 0,
            depot.num_amps == 0,
            depot.cfg == cfg,
    {
        Depot {
            queue: CondQueue::new(),
            num_inputs: 0,
            num_hangs: 0,
            num_crashes: 0,
            num_amps: 0,
            cfg,
        }
    }

    /// Numbers a run that is kept, and says where it is to be written. An
    /// ordinary run goes to the inputs, a timeout to the hangs, a crash to
    /// the crashes, each under the next number of its kind. A reply goes to
    /// the amplifying inputs and, under the next input number, to the
    /// inputs; where its file exists already it is not kept again.
    pub fn save(&mut self, status: &StatusType, amp_is_known: bool) -> (saved: Saved)
        ensures
            saved == old(self).saved(*status, amp_is_known),
            final(self).queue == old(self).queue,
            final(self).cfg == old(self).cfg,
            final(self).num_inputs == (if saved.dir == Some(SaveDir::Inputs) {
                counted(old(self).num_inputs)
            } else {
                old(self).num_inputs
            }),
            final(self).num_hangs == (if saved.dir == Some(SaveDir::Hangs) {
                counted(old(self).num_hangs)
            } else {
                old(self).num_hangs
            }),
            final(self).num_crashes == (if saved.dir == Some(SaveDir::Crashes) {
                counted(old(self).num_crashes)
            } else {
                old(self).num_crashes
            }),
            final(self).num_amps == (if saved.amp {
                counted(old(self).num_amps)
            } else {
                old(self).num_amps
            }),
    {
        match status {
            StatusType::Normal => {
                let id = self.num_inputs;
                self.num_inputs = count(id);
                Saved { id, dir: Some(SaveDir::Inputs), amp: false }
            },
            StatusType::Timeout => {
                let id = self.num_hangs;
                self.num_hangs = count(id);
                Saved { id, dir: Some(SaveDir::Hangs), amp: false }
            },
            StatusType::Crash => {
                let id = self.num_crashes;
                self.num_crashes = count(id);
                Saved { id, dir: Some(SaveDir::Crashes), amp: false }
            },
            StatusType::Amp(_, _) => {
                if amp_is_known {
                    Saved { id: 0, dir: None, amp: false }
                } else {
                    self.num_amps = count(self.num_amps);
                    let id = self.num_inputs;
                    self.num_inputs = count(id);
                    Saved { id, dir: Some(SaveDir::Inputs), amp: true }
                }
            },
            _ => Saved { id: 0, dir: None, amp: false },
        }
    }

    /// Whether no input has been kept.
    pub fn empty(&self) -> (b: bool)
        ensures
            b == (self.num_inputs == 0),
    {
        self.num_inputs == 0
    }

    /// The number of an input picked at random.
    pub fn next_random(&self) -> (id: usize)
        requires
            self.num_inputs > 0,
        ensures
            id < self.num_inputs,
    {
        pick_input(random_word(), self.num_inputs)
    }

    /// The number of an input picked at random; none where no input has
    /// been kept.
    pub fn try_next_random(&self) -> (id: Option<usize>)
        ensures
            match id {
                Some(id) => id < self.num_inputs,
                None => self.num_inputs == 0,
            },
    {
        if self.num_inputs > 0 {
            Some(self.next_random())
        } else {
            None
        }
    }

    /// Hands out the condition to fuzz next: a copy of an entry that no
    /// entry comes before, with the priority it had. The entry moves down
    /// for the next time.
    pub fn get_entry(&mut self) -> (entry: Option<(CondStmt, QPriority)>)
        requires
            old(self).wf(),
        ensures
            final(self).wf(),
            final(self).cfg == old(self).cfg,
            final(self).num_inputs == old(self).num_inputs,
            final(self).num_hangs == old(self).num_hangs,
            final(self).num_crashes == old(self).num_crashes,
            final(self).num_amps == old(self).num_amps,
            match entry {
                Some((cond, priority)) => {
                    let key = key_of(cond@.base.identity());
                    &&& CondQueue::is_first(old(self).queue.entries(), key)
                    &&& old(self).queue.entries()[key] == (cond@, priority)
                    &&& final(self).queue.entries() == old(self).queue.entries().insert(
                        key,
                        (cond@, priority.demoted(cond@.base.op)),
                    )
                },
                None => {
                    &&& old(self).queue.entries() == Map::<u128, (CondView, QPriority)>::empty()
                    &&& final(self).queue.entries() == old(self).queue.entries()
                },
            },
    {
        self.queue.get_entry()
    }

    /// Takes the conditions into the queue, one after the other.
    pub fn add_entries(&mut self, conds: Vec<CondStmt>)
        requires
            old(self).wf(),
        ensures
            final(self).wf(),
            final(self).queue.entries() == entries_after_all(
                old(self).queue.entries(),
                views(conds@),
                old(self).cfg,
            ),
            final(self).cfg == old(self).cfg,
            final(self).num_inputs == old(self).num_inputs,
            final(self).num_hangs == old(self).num_hangs,
            final(self).num_crashes == old(self).num_crashes,
            final(self).num_amps == old(self).num_amps,
    {
        let mut i: usize = 0;
        while i < conds.len()
            invariant
                i <= conds.len(),
                self.wf(),
                self.queue.entries() == entries_after_all(
                    old(self).queue.entries(),
                    views(upto(conds@, i)),
                    old(self).cfg,
                ),
                self.cfg == old(self).cfg,
                self.num_inputs == old(self).num_inputs,
                self.num_hangs == old(self).num_hangs,
                self.num_crashes == old(self).num_crashes,
                self.num_amps == old(self).num_amps,
            decreases conds.len() - i,
        {
            let cond = conds[i].clone();
            let distance = self.cfg.score_for_cmp_inp(cond.base.cmpid, &cond.variables);
            proof {
                let next = views(conds@.take(i + 1));
                assert(next.drop_last() =~= views(upto(conds@, i)));
                assert(next.last() == nth(conds@, i)@);
            }
            self.queue.add_entry(cond, distance);
            i = i + 1;
        }
        proof {
            assert(upto(conds@, i) =~= conds@);
        }
    }

    /// Takes back a condition from the strategy that worked on it. The
    /// entry holds the condition as it is now and is scored anew, at its old
    /// level; a discarded condition is finished, and its site is retired as
    /// a target. Returns whether the queue holds the condition.
    pub fn update_entry(&mut self, cond: CondStmt) -> (found: bool)
        requires
            old(self).wf(),
        ensures
            final(self).wf(),
            found == old(self).queue.entries().contains_key(key_of(cond@.base.identity())),
            final(self).queue.entries() == (if found {
                old(self).queue.entries().insert(
                    key_of(cond@.base.identity()),
                    entry_updated(
                        old(self).queue.entries()[key_of(cond@.base.identity())],
                        cond@,
                        old(self).cfg.score(cond@.base.cmpid),
                    ),
                )
            } else {
                old(self).queue.entries()
            }),
            final(self).cfg.live_targets() == (if cond@.is_discarded() {
                old(self).cfg.live_targets().remove(cond@.base.cmpid)
            } else {
                old(self).cfg.live_targets()
            }),
            final(self).cfg.weights() == old(self).cfg.weights(),
            final(self).cfg.indirect() == old(self).cfg.indirect(),
            final(self).cfg.dominator_pairs() == old(self).cfg.dominator_pairs(),
            final(self).cfg.magic() == old(self).cfg.magic(),
            final(self).num_inputs == old(self).num_inputs,
            final(self).num_hangs == old(self).num_hangs,
            final(self).num_crashes == old(self).num_crashes,
            final(self).num_amps == old(self).num_amps,
    {
        let distance = self.cfg.score_for_cmp(cond.base.cmpid);
        let found = self.queue.update_entry(&cond, distance);
        if cond.is_discarded() {
            self.cfg.remove_target(cond.base.cmpid);
        }
        found
    }
}

} // verus!
