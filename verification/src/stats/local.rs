//! What one worker has done since it last reported.
use vstd::prelude::*;
use std::collections::HashMap;
use std::collections::HashSet;
use crate::branches::{amp_table, BitmapHash, PathAmplification};
use crate::byte_count::{AmpByteCount, AmpView};
use crate::cond_stmt::CondStmt;
use crate::fuzz_type::FuzzType;
use crate::stats::counter::Counter;
use crate::status_type::StatusType;

verus! {

broadcast use vstd::std_specs::hash::group_hash_axioms;

/// The table of best amplifications after `amp` was seen on `path`, where
/// the larger factor wins: `amp` is entered where the path is new or where
/// the factor that the path had is smaller.
pub open spec fn factor_table_after(table: Map<u64, AmpView>, path: u64, amp: AmpView) -> Map<
    u64,
    AmpView,
> {
    if table.contains_key(path) && !table[path].factor_below(amp) {
        table
    } else {
        table.insert(path, amp)
    }
}

/// The greater of the best amplification so far and a new one; the new one
/// where neither amplifies more.
pub open spec fn greater_amp(best: AmpView, amp: AmpView) -> AmpView {
    if best.beats(amp) {
        best
    } else {
        amp
    }
}

/// The factor of a path never falls: after an update every path that had an
/// entry still has one, with a factor no smaller than before.
pub proof fn lemma_factor_never_falls(table: Map<u64, AmpView>, path: u64, amp: AmpView, any: u64)
    requires
        table.contains_key(any),
    ensures
        factor_table_after(table, path, amp).contains_key(any),
        !factor_table_after(table, path, amp)[any].factor_below(table[any]),
        factor_table_after(table, path, amp).contains_key(path),
{
    let old_entry = table[any];
    let in_o = crate::byte_count::total(old_entry.bytes_in, crate::byte_count::Layer::L2);
    let in_a = crate::byte_count::total(amp.bytes_in, crate::byte_count::Layer::L2);
    let out_o = crate::byte_count::total(old_entry.bytes_out, crate::byte_count::Layer::L2);
    let out_a = crate::byte_count::total(amp.bytes_out, crate::byte_count::Layer::L2);
    assert(!old_entry.factor_below(old_entry));
    if any == path && old_entry.factor_below(amp) {
        let num_o = if in_o > 0 { out_o } else { 0 };
        let den_o = if in_o > 0 { in_o } else { 1 };
        let num_a = if in_a > 0 { out_a } else { 0 };
        let den_a = if in_a > 0 { in_a } else { 1 };
        assert(num_o * den_a < num_a * den_o);
        assert(!(num_a * den_o < num_o * den_a));
    }
}

/// Enters `amp` for `path` into a table in which the larger factor wins.
pub fn note_factor(amps: &mut PathAmplification, path: u64, amp: &AmpByteCount)
    ensures
        amp_table(final(amps)@) == factor_table_after(amp_table(old(amps)@), path, amp@),
{
    let replace = match amps.get(&path) {
        Some(known) => known.factor_below(amp),
        None => true,
    };
    if replace {
        let _ = amps.insert(path, amp.clone());
    }
    proof {
        assert(amp_table(amps@) =~= factor_table_after(amp_table(old(amps)@), path, amp@));
    }
}

/// The counters of one worker.
pub struct LocalStats {
    pub fuzz_type: FuzzType,
    pub num_exec_round: Counter,
    pub num_exec: Counter,
    pub num_inputs: Counter,
    pub num_hangs: Counter,
    pub num_crashes: Counter,
    pub num_amps: Counter,
    /// The paths that runs of this worker took.
    pub paths: HashSet<BitmapHash>,
    pub best_amp: AmpByteCount,
    /// The paths that drew a reply, each with its best amplification.
    pub path_amplification: PathAmplification,
    /// Time spent in tracking runs, in microseconds.
    pub track_time: u64,
}

/// `after` is what a worker has counted once a run with this outcome and
/// this path was kept, where `before` is what it had counted.
pub open spec fn counted_run(
    before: LocalStats,
    after: LocalStats,
    status: StatusType,
    path_hash: BitmapHash,
) -> bool {
    &&& after.paths@ == before.paths@.insert(path_hash)
    &&& after.fuzz_type == before.fuzz_type
    &&& after.num_exec_round == before.num_exec_round
    &&& after.num_exec == before.num_exec
    &&& after.track_time == before.track_time
    &&& after.num_inputs.0 == (if status is Normal {
        Counter::sum(before.num_inputs.0, 1)
    } else {
        before.num_inputs.0
    })
    &&& after.num_hangs.0 == (if status is Timeout {
        Counter::sum(before.num_hangs.0, 1)
    } else {
        before.num_hangs.0
    })
    &&& after.num_crashes.0 == (if status is Crash {
        Counter::sum(before.num_crashes.0, 1)
    } else {
        before.num_crashes.0
    })
    &&& after.num_amps.0 == (if status is Amp {
        Counter::sum(before.num_amps.0, 1)
    } else {
        before.num_amps.0
    })
    &&& match status {
        StatusType::Amp(path, amp) => {
            &&& after.best_amp@ == greater_amp(before.best_amp@, amp@)
            &&& amp_table(after.path_amplification@) == factor_table_after(
                amp_table(before.path_amplification@),
                path,
                amp@,
            )
        },
        _ => {
            &&& after.best_amp@ == before.best_amp@
            &&& amp_table(after.path_amplification@) == amp_table(before.path_amplification@)
        },
    }
}

impl LocalStats {
    /// Nothing has been counted since the last report.
    pub open spec fn is_cleared(&self) -> bool {
        &&& self.num_exec.0 == 0
        &&& self.num_inputs.0 == 0
        &&& self.num_hangs.0 == 0
        &&& self.num_crashes.0 == 0
        &&& self.num_amps.0 == 0
        &&& self.best_amp@ == AmpView::nothing()
        &&& amp_table(self.path_amplification@) == Map::<u64, AmpView>::empty()
        &&& self.track_time == 0
    }

    pub fn new() -> (stats: Self)
        ensures
            stats.is_cleared(),
            stats.fuzz_type == FuzzType::OtherFuzz,
            stats.num_exec_round.0 == 0,
            stats.paths@ == Set::<u64>::empty(),
    {
        let stats = LocalStats {
            fuzz_type: FuzzType::OtherFuzz,
            num_exec_round: Counter::new(),
            num_exec: Counter::new(),
            num_inputs: Counter::new(),
            num_hangs: Counter::new(),
            num_crashes: Counter::new(),
            num_amps: Counter::new(),
            paths: HashSet::new(),
            best_amp: AmpByteCount::new(),
            path_amplification: HashMap::new(),
            track_time: 0,
        };
        proof {
            assert(amp_table(stats.path_amplification@) =~= Map::<u64, AmpView>::empty());
        }
        stats
    }

    /// Starts the work on a condition: the strategy is the one that the
    /// condition calls for, and nothing has been counted.
    pub fn register(&mut self, cond: &CondStmt)
        ensures
            final(self).is_cleared(),
            final(self).fuzz_type == cond@.fuzz_type(),
            final(self).num_exec_round.0 == 0,
            final(self).paths@ == old(self).paths@,
    {
        self.fuzz_type = cond.get_fuzz_type();
        self.clear();
        self.num_exec_round = Counter::new();
    }

    /// Forgets what was counted since the last report. The strategy, the
    /// runs of this round and the paths seen stay.
    pub fn clear(&mut self)
        ensures
            final(self).is_cleared(),
            final(self).fuzz_type == old(self).fuzz_type,
            final(self).num_exec_round == old(self).num_exec_round,
            final(self).paths@ == old(self).paths@,
    {
        self.num_exec = Counter::new();
        self.num_inputs = Counter::new();
        self.num_hangs = Counter::new();
        self.num_crashes = Counter::new();
        self.num_amps = Counter::new();
        self.best_amp = AmpByteCount::new();
        self.path_amplification = HashMap::new();
        self.track_time = 0;
        proof {
            assert(amp_table(self.path_amplification@) =~= Map::<u64, AmpView>::empty());
        }
    }

    /// Counts a run that was kept: its path, and by its outcome an input, a
    /// hang, a crash, or a reply with its amplification.
    pub fn find_new(&mut self, status: &StatusType, path_hash: BitmapHash)
        ensures
            counted_run(*old(self), *final(self), *status, path_hash),
    {
        let _ = self.paths.insert(path_hash);
        match status {
            StatusType::Normal => {
                self.num_inputs.count();
            },
            StatusType::Timeout => {
                self.num_hangs.count();
            },
            StatusType::Crash => {
                self.num_crashes.count();
            },
            StatusType::Amp(path, amp) => {
                self.num_amps.count();
                if !self.best_amp.exceeds(amp) {
                    self.best_amp = amp.clone();
                }
                note_factor(&mut self.path_amplification, *path, amp);
            },
            _ => {},
        }
    }
}

impl Default for LocalStats {
    fn default() -> (stats: Self)
        ensures
            stats.is_cleared(),
    {
        LocalStats::new()
    }
}

} // verus!
