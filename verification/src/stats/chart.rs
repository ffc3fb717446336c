//! What all workers together have done.
use vstd::prelude::*;
use vstd::string::StringExecFns;
use std::collections::HashMap;
use std::collections::HashSet;
use crate::branches::{amp_table, BitmapHash, PathAmplification};
use crate::byte_count::{AmpByteCount, AmpView};
use crate::cond_stmt::{CondStmt, CondView};
use crate::depot::queue::{CondQueue, Entries};
use crate::fuzz_type::{fuzz_type_name, get_fuzz_type_name, FuzzType, FUZZ_TYPE_NUM};
use crate::stats::counter::Counter;
use crate::stats::fuzz::{headers, row_of, texts, FuzzStats, StrategyStats};
use crate::keys::{path_keys, path_members};
use crate::stats::local::{greater_amp, note_factor, LocalStats};
use crate::text::{decimal, decimal_digits};

verus! {

broadcast use vstd::std_specs::hash::group_hash_axioms;

/// The entry of a path in two tables merged: the one with the larger
/// factor, the first where neither is larger.
pub open spec fn merged_entry(a: Map<u64, AmpView>, b: Map<u64, AmpView>, path: u64) -> AmpView {
    if a.contains_key(path) && (!b.contains_key(path) || !a[path].factor_below(b[path])) {
        a[path]
    } else {
        b[path]
    }
}

/// Table `a` with the entries of `b` for the paths in `over` merged in.
pub open spec fn merged_over(a: Map<u64, AmpView>, b: Map<u64, AmpView>, over: Set<u64>) -> Map<
    u64,
    AmpView,
> {
    Map::new(
        |path: u64| a.contains_key(path) || (over.contains(path) && b.contains_key(path)),
        |path: u64|
            if over.contains(path) {
                merged_entry(a, b, path)
            } else {
                a[path]
            },
    )
}

/// Two tables of best amplifications merged: every path of either, each
/// with the entry of the larger factor.
pub open spec fn merged(a: Map<u64, AmpView>, b: Map<u64, AmpView>) -> Map<u64, AmpView> {
    merged_over(a, b, b.dom())
}

/// Merges the entries of `map2` into `map1`; for a path of both the larger
/// factor wins.
pub fn merge_hashmaps(map1: &mut PathAmplification, map2: &PathAmplification)
    ensures
        amp_table(final(map1)@) == merged(amp_table(old(map1)@), amp_table(map2@)),
{
    let keys = path_keys(map2);
    let ghost a = amp_table(map1@);
    let ghost b = amp_table(map2@);
    let mut i: usize = 0;
    proof {
        assert(amp_table(map1@) =~= merged_over(a, b, keys@.take(0).to_set()));
    }
    while i < keys.len()
        invariant
            i <= keys.len(),
            keys@.no_duplicates(),
            keys@.to_set() == map2@.dom(),
            b == amp_table(map2@),
            amp_table(map1@) == merged_over(a, b, keys@.take(i as int).to_set()),
        decreases keys.len() - i,
    {
        let key = keys[i];
        proof {
            assert(keys@.to_set().contains(key));
            assert(!keys@.take(i as int).contains(key));
            assert(keys@.take(i + 1) =~= keys@.take(i as int).push(key));
        }
        match map2.get(&key) {
            Some(amp) => {
                let ghost before = amp_table(map1@);
                note_factor(map1, key, amp);
                proof {
                    let done = keys@.take(i as int).to_set();
                    let next = keys@.take(i + 1).to_set();
                    assert forall|p: u64| next.contains(p) == (done.contains(p) || p == key) by {
                        if done.contains(p) {
                            let j = choose|j: int|
                                0 <= j < keys@.take(i as int).len() && keys@.take(i as int)[j] == p;
                            assert(keys@.take(i + 1)[j] == p);
                        }
                        if p == key {
                            assert(keys@.take(i + 1)[i as int] == p);
                        }
                    }
                    assert(amp_table(map1@) =~= merged_over(a, b, next));
                }
            },
            None => {},
        }
        i = i + 1;
    }
    proof {
        assert(keys@.take(i as int) =~= keys@);
    }
}

/// Takes the paths of `more` into `paths`.
pub fn extend_paths(paths: &mut HashSet<BitmapHash>, more: &HashSet<BitmapHash>)
    ensures
        final(paths)@ == old(paths)@.union(more@),
{
    let members = path_members(more);
    let mut i: usize = 0;
    proof {
        assert(paths@ =~= old(paths)@.union(members@.take(0).to_set()));
    }
    while i < members.len()
        invariant
            i <= members.len(),
            paths@ == old(paths)@.union(members@.take(i as int).to_set()),
        decreases members.len() - i,
    {
        let _ = paths.insert(members[i]);
        proof {
            let done = members@.take(i as int);
            let next = members@.take(i + 1);
            assert(next =~= done.push(members@[i as int]));
            assert forall|p: u64| next.contains(p) == (done.contains(p) || p == members@[i as int]) by {
                if done.contains(p) {
                    let j = choose|j: int| 0 <= j < done.len() && done[j] == p;
                    assert(next[j] == p);
                }
                if p == members@[i as int] {
                    assert(next[i as int] == p);
                }
            }
            assert(paths@ =~= old(paths)@.union(next.to_set()));
        }
        i = i + 1;
    }
    proof {
        assert(members@.take(i as int) =~= members@);
    }
}

/// The sum of two times, or the largest 64-bit number where the sum lies
/// beyond it.
pub open spec fn time_sum(a: u64, b: u64) -> u64 {
    if a + b <= u64::MAX {
        (a + b) as u64
    } else {
        u64::MAX
    }
}

fn add_time(a: u64, b: u64) -> (r: u64)
    ensures
        r == time_sum(a, b),
{
    if b <= u64::MAX - a {
        a + b
    } else {
        u64::MAX
    }
}

/// Why the fuzzer stops, as far as the number of explored conditions says.
#[derive(Debug, Clone, Copy, PartialEq, Eq, Structural)]
pub enum Stop {
    /// No condition is explored: the seeds yielded no constraint.
    NoConstraint,
    /// The number of explored conditions has not changed since the last
    /// look: all constraints are solved.
    Solved,
}

/// Whether the fuzzer stops, from the number of explored conditions now and
/// at the last look. It goes on while workers are still starting.
pub fn should_stop(workers_started: bool, cur_explore_num: usize, last_explore_num: usize) -> (stop:
    Option<Stop>)
    ensures
        stop == (if !workers_started {
            None
        } else if cur_explore_num == 0 {
            Some(Stop::NoConstraint)
        } else if cur_explore_num == last_explore_num {
            Some(Stop::Solved)
        } else {
            None
        }),
{
    if !workers_started {
        None
    } else if cur_explore_num == 0 {
        Some(Stop::NoConstraint)
    } else if cur_explore_num == last_explore_num {
        Some(Stop::Solved)
    } else {
        None
    }
}

/// What the search on the explored conditions has come to.
#[derive(Debug, Clone, Copy, PartialEq, Eq, Structural)]
pub struct SearchStats {
    /// Conditions on which the fast and the tracking build disagree.
    pub num_inconsistent: Counter,
    /// Conditions whose output does not move.
    pub num_undesirable: Counter,
    /// Conditions that are finished.
    pub num_done: Counter,
}

impl SearchStats {
    pub fn new() -> (stats: Self)
        ensures
            stats == (SearchStats {
                num_inconsistent: Counter(0),
                num_undesirable: Counter(0),
                num_done: Counter(0),
            }),
    {
        SearchStats {
            num_inconsistent: Counter::new(),
            num_undesirable: Counter::new(),
            num_done: Counter::new(),
        }
    }

    /// Counts a condition.
    pub fn count(&mut self, cond: &CondStmt)
        ensures
            final(self).num_inconsistent.0 == (if cond.is_consistent {
                old(self).num_inconsistent.0
            } else {
                Counter::sum(old(self).num_inconsistent.0, 1)
            }),
            final(self).num_undesirable.0 == (if cond.is_desirable {
                old(self).num_undesirable.0
            } else {
                Counter::sum(old(self).num_undesirable.0, 1)
            }),
            final(self).num_done.0 == (if cond@.is_done() {
                Counter::sum(old(self).num_done.0, 1)
            } else {
                old(self).num_done.0
            }),
    {
        if !cond.is_consistent {
            self.num_inconsistent.count();
        }
        if !cond.is_desirable {
            self.num_undesirable.count();
        }
        if cond.is_done() {
            self.num_done.count();
        }
    }

    /// Whether more conditions are inconsistent than chance explains.
    pub fn multiple_inconsist(&self) -> (b: bool)
        ensures
            b == (self.num_inconsistent.0 > 15),
    {
        self.num_inconsistent.0 > 15
    }
}

/// Of the conditions filed under `keys`, the number that `pred` holds of.
pub open spec fn count_where(entries: Entries, keys: Seq<u128>, pred: spec_fn(CondView) -> bool) -> nat
    decreases keys.len(),
{
    if keys.len() == 0 {
        0
    } else {
        count_where(entries, keys.drop_last(), pred) + if pred(entries[keys.last()].0) {
            1nat
        } else {
            0nat
        }
    }
}

/// Of the conditions in the queue, the number that `pred` holds of.
pub open spec fn number_of(entries: Entries, pred: spec_fn(CondView) -> bool) -> nat {
    entries.dom().filter(|key: u128| pred(entries[key].0)).len()
}

/// Counting along a list that names each key once gives the number of
/// conditions in the queue.
pub proof fn lemma_count_is_number(entries: Entries, keys: Seq<u128>, pred: spec_fn(CondView) -> bool)
    requires
        keys.no_duplicates(),
    ensures
        count_where(entries, keys, pred) == keys.to_set().filter(
            |key: u128| pred(entries[key].0),
        ).len(),
        keys.to_set().finite(),
        count_where(entries, keys, pred) <= keys.len(),
    decreases keys.len(),
{
    let f = |key: u128| pred(entries[key].0);
    vstd::seq_lib::seq_to_set_is_finite(keys);
    if keys.len() == 0 {
        assert(keys.to_set().filter(f) =~= Set::<u128>::empty());
    } else {
        let rest = keys.drop_last();
        let x = keys.last();
        lemma_count_is_number(entries, rest, pred);
        assert(!rest.contains(x)) by {
            if rest.contains(x) {
                let j = choose|j: int| 0 <= j < rest.len() && rest[j] == x;
                assert(keys[j] == keys[keys.len() - 1]);
            }
        }
        assert forall|k: u128| keys.to_set().contains(k) == (rest.to_set().contains(k) || k == x) by {
            if rest.contains(k) {
                let j = choose|j: int| 0 <= j < rest.len() && rest[j] == k;
                assert(keys[j] == k);
            }
            if k == x {
                assert(keys[keys.len() - 1] == k);
            }
            if keys.contains(k) && k != x {
                let j = choose|j: int| 0 <= j < keys.len() && keys[j] == k;
                assert(rest[j] == k);
            }
        }
        if f(x) {
            assert(keys.to_set().filter(f) =~= rest.to_set().filter(f).insert(x));
        } else {
            assert(keys.to_set().filter(f) =~= rest.to_set().filter(f));
        }
    }
}

/// The strategy of the condition is `t`.
pub open spec fn of_type(t: FuzzType) -> spec_fn(CondView) -> bool {
    |cond: CondView| cond.fuzz_type() == t
}

/// The condition is explored and the two builds disagree on it.
pub open spec fn is_inconsistent() -> spec_fn(CondView) -> bool {
    |cond: CondView| cond.base.spec_is_explore() && !cond.is_consistent
}

/// The condition is explored and its output does not move.
pub open spec fn is_undesirable() -> spec_fn(CondView) -> bool {
    |cond: CondView| cond.base.spec_is_explore() && !cond.is_desirable
}

/// The condition is explored and finished.
pub open spec fn is_explored_done() -> spec_fn(CondView) -> bool {
    |cond: CondView| cond.base.spec_is_explore() && cond.is_done()
}

/// `most` is the largest number of rounds that a condition of the queue
/// was fuzzed; zero for the empty queue.
pub open spec fn is_max_round(entries: Entries, most: usize) -> bool {
    &&& forall|key: u128| #[trigger] entries.contains_key(key) ==> entries[key].0.fuzz_times <= most
    &&& most == 0 || exists|key: u128| #[trigger]
        entries.contains_key(key) && entries[key].0.fuzz_times == most
}

/// The counters of all workers.
pub struct ChartStats {
    /// Time spent in tracking runs, in microseconds.
    pub track_time: u64,
    pub num_rounds: Counter,
    pub max_rounds: Counter,
    pub num_exec: Counter,
    pub num_inputs: Counter,
    pub num_hangs: Counter,
    pub num_crashes: Counter,
    pub num_targets: Counter,
    pub num_amps: Counter,
    pub paths: HashSet<BitmapHash>,
    pub best_amp: AmpByteCount,
    pub path_amplification: PathAmplification,
    pub fuzz: FuzzStats,
    pub search: SearchStats,
    pub fuzz_type: FuzzType,
}

/// The record of a strategy after a worker reported what it did in
/// `elapsed` microseconds.
pub open spec fn strategy_synced(st: StrategyStats, after: StrategyStats, local: LocalStats, elapsed: u64) -> bool {
    &&& after.time == time_sum(st.time, elapsed)
    &&& after.num_conds == st.num_conds
    &&& after.num_exec.0 == Counter::sum(st.num_exec.0, local.num_exec.0)
    &&& after.num_inputs.0 == Counter::sum(st.num_inputs.0, local.num_inputs.0)
    &&& after.num_hangs.0 == Counter::sum(st.num_hangs.0, local.num_hangs.0)
    &&& after.num_crashes.0 == Counter::sum(st.num_crashes.0, local.num_crashes.0)
    &&& after.num_amps.0 == Counter::sum(st.num_amps.0, local.num_amps.0)
    &&& after.best_amp@ == greater_amp(st.best_amp@, local.best_amp@)
    &&& after.best_path_amp@ == st.best_path_amp@
    &&& amp_table(after.path_amplification@) == merged(
        amp_table(st.path_amplification@),
        amp_table(local.path_amplification@),
    )
}

/// The first columns of the short log.
pub open spec fn chart_columns() -> Seq<Seq<char>> {
    seq![
        "secs"@,
        "execs"@,
        "rounds"@,
        "density"@,
        "inputs"@,
        "hangs"@,
        "crashes"@,
        "targets"@,
        "amp_inputs"@,
        "paths"@,
        "amp_paths"@,
        "best_amp"@,
        "amps"@,
        "current_type"@,
    ]
}

impl ChartStats {
    pub open spec fn wf(&self) -> bool {
        self.fuzz.wf()
    }

    /// The counters before any worker reported.
    pub fn new() -> (stats: Self)
        ensures
            stats.wf(),
            stats.num_exec.0 == 0,
            stats.num_rounds.0 == 0,
            stats.num_inputs.0 == 0,
            stats.num_hangs.0 == 0,
            stats.num_crashes.0 == 0,
            stats.num_amps.0 == 0,
            stats.paths@ == Set::<u64>::empty(),
            stats.best_amp@ == AmpView::nothing(),
            amp_table(stats.path_amplification@) == Map::<u64, AmpView>::empty(),
    {
        let stats = ChartStats {
            track_time: 0,
            num_rounds: Counter::new(),
            max_rounds: Counter::new(),
            num_exec: Counter::new(),
            num_inputs: Counter::new(),
            num_hangs: Counter::new(),
            num_crashes: Counter::new(),
            num_targets: Counter::new(),
            num_amps: Counter::new(),
            paths: HashSet::new(),
            best_amp: AmpByteCount::new(),
            path_amplification: HashMap::new(),
            fuzz: FuzzStats::new(),
            search: SearchStats::new(),
            fuzz_type: FuzzType::OtherFuzz,
        };
        proof {
            assert(amp_table(stats.path_amplification@) =~= Map::<u64, AmpView>::empty());
        }
        stats
    }

    /// Takes in what a worker did since it last reported, in `elapsed`
    /// microseconds: the counts are added to those of the worker's strategy
    /// and to the totals, the paths are joined, and of two amplifications
    /// the greater is kept.
    pub fn sync_from_local(&mut self, local: &LocalStats, elapsed: u64)
        requires
            old(self).wf(),
        ensures
            final(self).wf(),
            final(self).track_time == time_sum(old(self).track_time, local.track_time),
            final(self).num_exec.0 == Counter::sum(old(self).num_exec.0, local.num_exec.0),
            final(self).num_inputs.0 == Counter::sum(old(self).num_inputs.0, local.num_inputs.0),
            final(self).num_hangs.0 == Counter::sum(old(self).num_hangs.0, local.num_hangs.0),
            final(self).num_crashes.0 == Counter::sum(old(self).num_crashes.0, local.num_crashes.0),
            final(self).num_amps.0 == Counter::sum(old(self).num_amps.0, local.num_amps.0),
            final(self).num_rounds == old(self).num_rounds,
            final(self).max_rounds == old(self).max_rounds,
            final(self).num_targets == old(self).num_targets,
            final(self).search == old(self).search,
            final(self).fuzz_type == old(self).fuzz_type,
            final(self).paths@ == old(self).paths@.union(local.paths@),
            final(self).best_amp@ == greater_amp(old(self).best_amp@, local.best_amp@),
            amp_table(final(self).path_amplification@) == merged(
                amp_table(old(self).path_amplification@),
                amp_table(local.path_amplification@),
            ),
            forall|i: int|
                0 <= i < FUZZ_TYPE_NUM && i != local.fuzz_type.spec_index() ==> final(self).fuzz.0@[i]
                    == old(self).fuzz.0@[i],
            strategy_synced(
                old(self).fuzz.0@[local.fuzz_type.spec_index() as int],
                final(self).fuzz.0@[local.fuzz_type.spec_index() as int],
                *local,
                elapsed,
            ),
    {
        self.track_time = add_time(self.track_time, local.track_time);
        let st = self.fuzz.get_mut(local.fuzz_type.index());
        st.time = add_time(st.time, elapsed);
        st.num_exec.add(local.num_exec);
        st.num_inputs.add(local.num_inputs);
        st.num_hangs.add(local.num_hangs);
        st.num_crashes.add(local.num_crashes);
        st.num_amps.add(local.num_amps);
        if !st.best_amp.exceeds(&local.best_amp) {
            st.best_amp = local.best_amp.clone();
        }
        merge_hashmaps(&mut st.path_amplification, &local.path_amplification);
        self.num_exec.add(local.num_exec);
        self.num_inputs.add(local.num_inputs);
        self.num_hangs.add(local.num_hangs);
        self.num_crashes.add(local.num_crashes);
        self.num_amps.add(local.num_amps);
        extend_paths(&mut self.paths, &local.paths);
        if !self.best_amp.exceeds(&local.best_amp) {
            self.best_amp = local.best_amp.clone();
        }
        merge_hashmaps(&mut self.path_amplification, &local.path_amplification);
    }

    /// Counts the conditions of the queue anew: for each strategy the
    /// conditions that call for it, of the explored ones those that are
    /// inconsistent, undesirable or finished, and the largest number of
    /// rounds that a condition was fuzzed.
    pub fn iter_pq(&mut self, queue: &CondQueue)
        requires
            old(self).wf(),
            queue.wf(),
        ensures
            final(self).wf(),
            forall|t: FuzzType|
                final(self).fuzz.conds_of(t) == number_of(queue.entries(), #[trigger] of_type(t)),
            forall|i: int|
                0 <= i < FUZZ_TYPE_NUM ==> #[trigger] final(self).fuzz.0@[i] == (StrategyStats {
                    num_conds: final(self).fuzz.0@[i].num_conds,
                    ..old(self).fuzz.0@[i]
                }),
            final(self).search.num_inconsistent.0 == number_of(queue.entries(), is_inconsistent()),
            final(self).search.num_undesirable.0 == number_of(queue.entries(), is_undesirable()),
            final(self).search.num_done.0 == number_of(queue.entries(), is_explored_done()),
            is_max_round(queue.entries(), final(self).max_rounds.0),
            final(self).num_exec == old(self).num_exec,
            final(self).num_rounds == old(self).num_rounds,
            final(self).num_inputs == old(self).num_inputs,
            final(self).num_hangs == old(self).num_hangs,
            final(self).num_crashes == old(self).num_crashes,
            final(self).num_amps == old(self).num_amps,
            final(self).num_targets == old(self).num_targets,
            final(self).track_time == old(self).track_time,
            final(self).fuzz_type == old(self).fuzz_type,
            final(self).paths == old(self).paths,
            final(self).best_amp == old(self).best_amp,
            final(self).path_amplification == old(self).path_amplification,
    {
        let keys = queue.keys();
        let ghost entries = queue.entries();
        self.search = SearchStats::new();
        self.fuzz.clear();
        let ghost cleared = self.fuzz.0@;
        let mut max_round: usize = 0;
        let mut i: usize = 0;
        while i < keys.len()
            invariant
                i <= keys.len(),
                self.wf(),
                queue.wf(),
                entries == queue.entries(),
                keys@.no_duplicates(),
                keys@.to_set() == entries.dom(),
                forall|t: FuzzType|
                    self.fuzz.0@[#[trigger] t.spec_index() as int].num_conds.0 == count_where(
                        entries,
                        keys@.take(i as int),
                        of_type(t),
                    ),
                forall|j: int|
                    0 <= j < FUZZ_TYPE_NUM ==> #[trigger] self.fuzz.0@[j] == (StrategyStats {
                        num_conds: self.fuzz.0@[j].num_conds,
                        ..cleared[j]
                    }),
                self.search.num_inconsistent.0 == count_where(
                    entries,
                    keys@.take(i as int),
                    is_inconsistent(),
                ),
                self.search.num_undesirable.0 == count_where(
                    entries,
                    keys@.take(i as int),
                    is_undesirable(),
                ),
                self.search.num_done.0 == count_where(
                    entries,
                    keys@.take(i as int),
                    is_explored_done(),
                ),
                forall|j: int|
                    0 <= j < i ==> entries[#[trigger] keys@[j]].0.fuzz_times <= max_round,
                max_round == 0 || exists|j: int|
                    0 <= j < i && entries[#[trigger] keys@[j]].0.fuzz_times == max_round,
                self.num_exec == old(self).num_exec,
                self.num_rounds == old(self).num_rounds,
                self.num_inputs == old(self).num_inputs,
                self.num_hangs == old(self).num_hangs,
                self.num_crashes == old(self).num_crashes,
                self.num_amps == old(self).num_amps,
                self.num_targets == old(self).num_targets,
                self.track_time == old(self).track_time,
                self.fuzz_type == old(self).fuzz_type,
                self.paths == old(self).paths,
                self.best_amp == old(self).best_amp,
                self.path_amplification == old(self).path_amplification,
            decreases keys.len() - i,
        {
            let key = keys[i];
            proof {
                assert(keys@.to_set().contains(key));
                assert(keys@.take(i + 1).drop_last() =~= keys@.take(i as int));
                assert(keys@.take(i + 1).last() == key);
                assert forall|t: FuzzType|
                    count_where(entries, keys@.take(i as int), #[trigger] of_type(t)) <= i by {
                    lemma_count_is_number(entries, keys@.take(i as int), of_type(t));
                }
                lemma_count_is_number(entries, keys@.take(i as int), is_inconsistent());
                lemma_count_is_number(entries, keys@.take(i as int), is_undesirable());
                lemma_count_is_number(entries, keys@.take(i as int), is_explored_done());
            }
            match queue.cond_of(key) {
                Some(cond) => {
                    if cond.fuzz_times > max_round {
                        max_round = cond.fuzz_times;
                    }
                    self.fuzz.count(cond);
                    if cond.base.is_explore() {
                        self.search.count(cond);
                    }
                },
                None => {},
            }
            i = i + 1;
        }
        self.max_rounds = Counter(max_round);
        proof {
            assert(keys@.take(i as int) =~= keys@);
            assert forall|t: FuzzType|
                self.fuzz.conds_of(t) == number_of(entries, #[trigger] of_type(t)) by {
                lemma_count_is_number(entries, keys@, of_type(t));
            }
            lemma_count_is_number(entries, keys@, is_inconsistent());
            lemma_count_is_number(entries, keys@, is_undesirable());
            lemma_count_is_number(entries, keys@, is_explored_done());
            assert forall|key: u128| #[trigger] entries.contains_key(key) implies entries[key].0.fuzz_times
                <= max_round by {
                let j = choose|j: int| 0 <= j < keys@.len() && keys@[j] == key;
                assert(entries[keys@[j]].0.fuzz_times <= max_round);
            }
            if max_round != 0 {
                let j = choose|j: int|
                    0 <= j < i && entries[#[trigger] keys@[j]].0.fuzz_times == max_round;
                assert(keys@.to_set().contains(keys@[j]));
            }
        }
    }

    /// Counts a round.
    pub fn finish_round(&mut self)
        ensures
            *final(self) == (ChartStats {
                num_rounds: Counter(Counter::sum(old(self).num_rounds.0, 1)),
                ..*old(self)
            }),
    {
        self.num_rounds.count();
    }

    /// Notes the strategy that is at work.
    pub fn register(&mut self, cond: &CondStmt)
        ensures
            *final(self) == (ChartStats { fuzz_type: cond@.fuzz_type(), ..*old(self) }),
    {
        self.fuzz_type = cond.get_fuzz_type();
    }

    /// Number of conditions that are explored.
    pub fn get_explore_num(&self) -> (n: usize)
        requires
            self.wf(),
        ensures
            n == self.fuzz.conds_of(FuzzType::ExploreFuzz),
    {
        self.fuzz.get(FuzzType::ExploreFuzz.index()).num_conds.get()
    }

    /// The column titles of the short log.
    pub fn mini_log_hdr(&self) -> (hdr: Vec<String>)
        ensures
            texts(hdr@) == chart_columns() + headers(FUZZ_TYPE_NUM as nat),
    {
        let mut hdr: Vec<String> = Vec::new();
        hdr.push(String::from_str("secs"));
        hdr.push(String::from_str("execs"));
        hdr.push(String::from_str("rounds"));
        hdr.push(String::from_str("density"));
        hdr.push(String::from_str("inputs"));
        hdr.push(String::from_str("hangs"));
        hdr.push(String::from_str("crashes"));
        hdr.push(String::from_str("targets"));
        hdr.push(String::from_str("amp_inputs"));
        hdr.push(String::from_str("paths"));
        hdr.push(String::from_str("amp_paths"));
        hdr.push(String::from_str("best_amp"));
        hdr.push(String::from_str("amps"));
        hdr.push(String::from_str("current_type"));
        proof {
            assert(texts(hdr@) =~= chart_columns());
        }
        let mut rest = self.fuzz.mini_log_hdr();
        let ghost head = hdr@;
        let ghost tail = rest@;
        hdr.append(&mut rest);
        proof {
            assert(texts(hdr@) =~= texts(head) + texts(tail));
        }
        hdr
    }

    /// One row of the short log. The caller gives the seconds since the
    /// start and the texts of the cells that are no whole numbers: the
    /// density, the best factor and the list of amplifying paths.
    pub fn mini_log(&self, secs: u64, density: &str, best_amp: &str, amps: &str) -> (row: Vec<String>)
        requires
            self.wf(),
        ensures
            texts(row@) == seq![
                decimal_digits(secs as nat),
                decimal_digits(self.num_exec.0 as nat),
                decimal_digits(self.num_rounds.0 as nat),
                density@,
                decimal_digits(self.num_inputs.0 as nat),
                decimal_digits(self.num_hangs.0 as nat),
                decimal_digits(self.num_crashes.0 as nat),
                decimal_digits(self.num_targets.0 as nat),
                decimal_digits(self.num_amps.0 as nat),
                decimal_digits(self.paths@.len()),
                decimal_digits(self.path_amplification@.dom().len()),
                best_amp@,
                amps@,
                fuzz_type_name(self.fuzz_type.spec_index()),
            ] + row_of(self.fuzz.0@, FUZZ_TYPE_NUM as nat),
    {
        let mut row: Vec<String> = Vec::new();
        row.push(decimal(secs));
        row.push(decimal(self.num_exec.0 as u64));
        row.push(decimal(self.num_rounds.0 as u64));
        row.push(String::from_str(density));
        row.push(decimal(self.num_inputs.0 as u64));
        row.push(decimal(self.num_hangs.0 as u64));
        row.push(decimal(self.num_crashes.0 as u64));
        row.push(decimal(self.num_targets.0 as u64));
        row.push(decimal(self.num_amps.0 as u64));
        row.push(decimal(self.paths.len() as u64));
        row.push(decimal(self.path_amplification.len() as u64));
        row.push(String::from_str(best_amp));
        row.push(String::from_str(amps));
        row.push(get_fuzz_type_name(self.fuzz_type.index()));
        let mut rest = self.fuzz.mini_log();
        let ghost head = row@;
        let ghost tail = rest@;
        row.append(&mut rest);
        proof {
            assert(texts(row@) =~= texts(head) + texts(tail));
            assert(texts(head) =~= seq![
                decimal_digits(secs as nat),
                decimal_digits(self.num_exec.0 as nat),
                decimal_digits(self.num_rounds.0 as nat),
                density@,
                decimal_digits(self.num_inputs.0 as nat),
                decimal_digits(self.num_hangs.0 as nat),
                decimal_digits(self.num_crashes.0 as nat),
                decimal_digits(self.num_targets.0 as nat),
                decimal_digits(self.num_amps.0 as nat),
                decimal_digits(self.paths@.len()),
                decimal_digits(self.path_amplification@.dom().len()),
                best_amp@,
                amps@,
                fuzz_type_name(self.fuzz_type.spec_index()),
            ]);
        }
        row
    }
}

} // verus!
