//! What the executor does with a run that found something new.
use vstd::prelude::*;
use crate::branches::{
    has_new_effect, has_new_result, hash_of_path, path_of, Branches, GlobalBranches,
};
use crate::cond_stmt::{views, CondStmt, CondView};
use crate::cond_stmt_base::CondStmtBase;
use crate::conv::{low32_of, wide64_of};
use crate::defs::{COND_AFL_OP, COND_AMP_OP};
use crate::depot::depot::{entries_after_all, Depot};
use crate::executor::judge::Executor;
use crate::stats::local::{counted_run, LocalStats};
use crate::status_type::StatusType;

verus! {

/// What a run added to the coverage and to the amplification.
#[derive(Debug, Clone, Copy, PartialEq, Eq, Structural)]
pub struct Observation {
    pub has_new_path: bool,
    pub has_good_amp: bool,
    pub edge_num: usize,
    /// The fingerprint of the path that the run took.
    pub path_hash: u64,
}

impl Observation {
    /// The run is kept: it took a new path or amplified well.
    pub open spec fn keep(self) -> bool {
        self.has_new_path || self.has_good_amp
    }

    pub fn is_kept(&self) -> (b: bool)
        ensures
            b == self.keep(),
    {
        self.has_new_path || self.has_good_amp
    }
}

impl Executor {
    /// Holds the run against what is known. A run that took a new path or
    /// amplified well is remembered in the executor's flags and counted in
    /// the worker's statistics.
    pub fn observe(
        &mut self,
        branches: &Branches,
        global: &mut GlobalBranches,
        stats: &mut LocalStats,
        status: &StatusType,
    ) -> (seen: Observation)
        requires
            old(global).wf(),
        ensures
            final(global).wf(),
            has_new_effect(*old(global), *final(global), branches@, *status),
            (seen.has_new_path, seen.has_good_amp) == ({
                let r = has_new_result(*old(global), branches@, *status, old(self).is_directed);
                (r.0, r.3)
            }),
            seen.edge_num == has_new_result(*old(global), branches@, *status, old(self).is_directed).2,
            seen.path_hash == hash_of_path(path_of(branches@)),
            *final(self) == (if seen.keep() {
                Executor {
                    has_new_path: seen.has_new_path,
                    has_good_amp: seen.has_good_amp,
                    ..*old(self)
                }
            } else {
                *old(self)
            }),
            seen.keep() ==> counted_run(*old(stats), *final(stats), *status, seen.path_hash),
            !seen.keep() ==> *final(stats) == *old(stats),
    {
        let (has_new_path, _has_new_edge, edge_num, has_good_amp) = branches.has_new(
            global,
            status,
            self.is_directed,
        );
        let path_hash = branches.get_path_as_hash();
        if has_new_path || has_good_amp {
            self.has_new_path = has_new_path;
            self.has_good_amp = has_good_amp;
            stats.find_new(status, path_hash);
        }
        Observation { has_new_path, has_good_amp, edge_num, path_hash }
    }
}

/// A run that is kept and went well is measured and run again without
/// the memory limit.
pub fn wants_measure(seen: &Observation, status: &StatusType) -> (b: bool)
    ensures
        b == (seen.keep() && status.is_normal_or_amp()),
{
    seen.is_kept() && status.counts_as_normal()
}

/// The run without the memory limit went otherwise than well: the input
/// behaves differently without the limit, and is held against the maps of
/// hangs or crashes.
pub fn unlimited_memory_differs(unmem_status: &StatusType) -> (b: bool)
    ensures
        b == !unmem_status.is_normal_or_amp(),
{
    !unmem_status.counts_as_normal()
}

/// Whether an input that amplifies gets a condition of its own for the
/// amplification strategy: amplification is enabled, the run without the
/// memory limit drew a reply, and the input does not itself come from that
/// strategy.
pub fn wants_amp_cond(unmem_status: &StatusType, enable_amp: bool, parent_op: Option<u32>) -> (b:
    bool)
    ensures
        b == (unmem_status is Amp && enable_amp && parent_op != Some(COND_AMP_OP)),
{
    let from_amp = match parent_op {
        Some(op) => op == COND_AMP_OP,
        None => false,
    };
    matches!(unmem_status, StatusType::Amp(_, _)) && enable_amp && !from_amp
}

/// Whether the input is tracked: it took a new path, and the run without
/// the memory limit went well.
pub fn wants_track(has_new_path: bool, unmem_status: &StatusType) -> (b: bool)
    ensures
        b == (has_new_path && unmem_status.is_normal_or_amp()),
{
    has_new_path && unmem_status.counts_as_normal()
}

/// The conditions that enter the queue after input `id` was tracked: those
/// that the tracking run found and, with the AFL strategy enabled, the
/// whole-input condition of the input. Where the tracking run found none,
/// none enters.
pub open spec fn tracked_entries(
    conds: Seq<CondView>,
    enable_afl: bool,
    id: usize,
    speed: u32,
    edge_num: usize,
) -> Seq<CondView> {
    if conds.len() == 0 {
        conds
    } else if enable_afl {
        conds.push(
            CondView {
                speed,
                base: CondStmtBase {
                    op: COND_AFL_OP,
                    cmpid: low32_of(id),
                    belong: low32_of(id),
                    arg1: wide64_of(edge_num),
                    ..CondStmtBase::zeroed_value()
                },
                ..CondView::fresh(CondStmtBase::zeroed_value())
            },
        )
    } else {
        conds
    }
}

/// Taking conditions in one after the other is the same as taking in the
/// first ones and then the last.
pub proof fn lemma_entries_after_push(
    entries: crate::depot::queue::Entries,
    conds: Seq<CondView>,
    last: CondView,
    cfg: crate::dyncfg::cfg::ControlFlowGraph,
)
    ensures
        entries_after_all(entries, conds.push(last), cfg) == entries_after_all(
            entries_after_all(entries, conds, cfg),
            seq![last],
            cfg,
        ),
{
    let mid = entries_after_all(entries, conds, cfg);
    assert(conds.push(last).drop_last() =~= conds);
    assert(conds.push(last).last() == last);
    assert(seq![last].drop_last() =~= Seq::<CondView>::empty());
    assert(seq![last].last() == last);
    assert(entries_after_all(mid, Seq::<CondView>::empty(), cfg) == mid);
    assert(entries_after_all(mid, seq![last].drop_last(), cfg) == mid);
}

/// Takes the conditions of a tracked input into the queue.
pub fn enqueue_tracked(
    depot: &mut Depot,
    cond_stmts: Vec<CondStmt>,
    enable_afl: bool,
    id: usize,
    speed: u32,
    edge_num: usize,
)
    requires
        old(depot).wf(),
    ensures
        final(depot).wf(),
        final(depot).queue.entries() == entries_after_all(
            old(depot).queue.entries(),
            tracked_entries(views(cond_stmts@), enable_afl, id, speed, edge_num),
            old(depot).cfg,
        ),
        final(depot).cfg == old(depot).cfg,
        final(depot).num_inputs == old(depot).num_inputs,
        final(depot).num_hangs == old(depot).num_hangs,
        final(depot).num_crashes == old(depot).num_crashes,
        final(depot).num_amps == old(depot).num_amps,
{
    if cond_stmts.len() > 0 {
        let ghost conds = views(cond_stmts@);
        depot.add_entries(cond_stmts);
        if enable_afl {
            let afl = CondStmt::get_afl_cond(id, speed, edge_num);
            let ghost last = afl@;
            let mut one: Vec<CondStmt> = Vec::new();
            one.push(afl);
            proof {
                assert(views(one@) =~= seq![last]);
                lemma_entries_after_push(old(depot).queue.entries(), conds, last, old(depot).cfg);
            }
            depot.add_entries(one);
        }
    }
}

/// Takes the condition for the amplification strategy into the queue.
pub fn enqueue_amp(depot: &mut Depot, id: usize)
    requires
        old(depot).wf(),
    ensures
        final(depot).wf(),
        final(depot).queue.entries() == entries_after_all(
            old(depot).queue.entries(),
            seq![
                CondView::fresh(
                    CondStmtBase {
                        op: COND_AMP_OP,
                        cmpid: low32_of(id),
                        belong: low32_of(id),
                        ..CondStmtBase::zeroed_value()
                    },
                ),
            ],
            old(depot).cfg,
        ),
        final(depot).cfg == old(depot).cfg,
        final(depot).num_inputs == old(depot).num_inputs,
        final(depot).num_hangs == old(depot).num_hangs,
        final(depot).num_crashes == old(depot).num_crashes,
        final(depot).num_amps == old(depot).num_amps,
{
    let amp = CondStmt::get_amp_cond(id);
    let ghost last = amp@;
    let mut one: Vec<CondStmt> = Vec::new();
    one.push(amp);
    proof {
        assert(views(one@) =~= seq![last]);
    }
    depot.add_entries(one);
}

} // verus!
