//! What each strategy has done.
use vstd::prelude::*;
use vstd::string::StringExecFns;
use std::collections::HashMap;
use crate::branches::{amp_table, PathAmplification};
use crate::byte_count::{AmpByteCount, AmpView};
use crate::cond_stmt::CondStmt;
use crate::fuzz_type::{fuzz_type_label, get_fuzz_type_label, FuzzType, FUZZ_TYPE_NUM};
use crate::stats::counter::Counter;
use crate::text::{decimal, decimal_digits};

verus! {

/// What one strategy has done.
pub struct StrategyStats {
    /// Time spent, in microseconds.
    pub time: u64,
    pub num_conds: Counter,
    pub num_exec: Counter,
    pub num_inputs: Counter,
    pub num_hangs: Counter,
    pub num_crashes: Counter,
    pub num_amps: Counter,
    pub best_amp: AmpByteCount,
    pub path_amplification: PathAmplification,
    pub best_path_amp: AmpByteCount,
}

impl StrategyStats {
    /// The record of a strategy that has done nothing.
    pub open spec fn is_fresh(&self) -> bool {
        &&& self.time == 0
        &&& self.num_conds.0 == 0
        &&& self.num_exec.0 == 0
        &&& self.num_inputs.0 == 0
        &&& self.num_hangs.0 == 0
        &&& self.num_crashes.0 == 0
        &&& self.num_amps.0 == 0
        &&& self.best_amp@ == AmpView::nothing()
        &&& self.best_path_amp@ == AmpView::nothing()
        &&& amp_table(self.path_amplification@) == Map::<u64, AmpView>::empty()
    }

    pub fn new() -> (stats: Self)
        ensures
            stats.is_fresh(),
    {
        let stats = StrategyStats {
            time: 0,
            num_conds: Counter::new(),
            num_exec: Counter::new(),
            num_inputs: Counter::new(),
            num_hangs: Counter::new(),
            num_crashes: Counter::new(),
            num_amps: Counter::new(),
            best_amp: AmpByteCount::new(),
            path_amplification: HashMap::new(),
            best_path_amp: AmpByteCount::new(),
        };
        proof {
            assert(amp_table(stats.path_amplification@) =~= Map::<u64, AmpView>::empty());
        }
        stats
    }
}

impl Default for StrategyStats {
    fn default() -> (stats: Self)
        ensures
            stats.is_fresh(),
    {
        StrategyStats::new()
    }
}

/// What the strategies have done, one record for each.
pub struct FuzzStats(pub Vec<StrategyStats>);

/// The column titles of the short log: for each strategy its name in upper
/// case with ` conds` and with ` execs`.
pub open spec fn header_of(i: nat) -> Seq<Seq<char>> {
    seq![fuzz_type_label(i) + " conds"@, fuzz_type_label(i) + " execs"@]
}

/// The column titles of the first `n` strategies.
pub open spec fn headers(n: nat) -> Seq<Seq<char>>
    decreases n,
{
    if n == 0 {
        Seq::empty()
    } else {
        headers((n - 1) as nat) + header_of((n - 1) as nat)
    }
}

/// The cells of one strategy in a row of the short log: the number of its
/// conditions and of its runs, in decimal.
pub open spec fn cells_of(stats: StrategyStats) -> Seq<Seq<char>> {
    seq![decimal_digits(stats.num_conds.0 as nat), decimal_digits(stats.num_exec.0 as nat)]
}

/// The cells of the first `n` strategies.
pub open spec fn row_of(all: Seq<StrategyStats>, n: nat) -> Seq<Seq<char>>
    decreases n,
{
    if n == 0 {
        Seq::empty()
    } else {
        row_of(all, (n - 1) as nat) + cells_of(all[n - 1])
    }
}

/// What a list of strings reads.
pub open spec fn texts(strings: Seq<String>) -> Seq<Seq<char>> {
    strings.map_values(|s: String| s@)
}

impl FuzzStats {
    /// There is one record for each strategy.
    pub open spec fn wf(&self) -> bool {
        self.0@.len() == FUZZ_TYPE_NUM
    }

    /// The number of conditions counted for a strategy.
    pub open spec fn conds_of(&self, t: FuzzType) -> usize {
        self.0@[t.spec_index() as int].num_conds.0
    }

    /// Fewer conditions are explored than the whole-input and the other
    /// strategies hold together, by more than one: the model of the input
    /// reads may be missing.
    pub open spec fn spec_may_be_model_failure(&self) -> bool {
        self.conds_of(FuzzType::ExploreFuzz) + 1 < self.conds_of(FuzzType::AFLFuzz) + self.conds_of(
            FuzzType::OtherFuzz,
        )
    }

    pub fn new() -> (stats: Self)
        ensures
            stats.wf(),
            forall|i: int| 0 <= i < FUZZ_TYPE_NUM ==> (#[trigger] stats.0@[i]).is_fresh(),
    {
        let mut all: Vec<StrategyStats> = Vec::new();
        let mut i: usize = 0;
        while i < FUZZ_TYPE_NUM
            invariant
                i <= FUZZ_TYPE_NUM,
                all@.len() == i,
                forall|j: int| 0 <= j < i ==> (#[trigger] all@[j]).is_fresh(),
            decreases FUZZ_TYPE_NUM - i,
        {
            all.push(StrategyStats::new());
            i = i + 1;
        }
        FuzzStats(all)
    }

    /// The record of the strategy at position `i`, to be written to.
    pub fn get_mut(&mut self, i: usize) -> (stats: &mut StrategyStats)
        requires
            old(self).wf(),
            i < FUZZ_TYPE_NUM,
        ensures
            *stats == old(self).0@[i as int],
            final(self).0@ == old(self).0@.update(i as int, *final(stats)),
    {
        &mut self.0[i]
    }

    /// The record of the strategy at position `i`.
    pub fn get(&self, i: usize) -> (stats: &StrategyStats)
        requires
            self.wf(),
            i < FUZZ_TYPE_NUM,
        ensures
            *stats == self.0@[i as int],
    {
        &self.0[i]
    }

    /// Forgets how many conditions each strategy holds.
    pub fn clear(&mut self)
        requires
            old(self).wf(),
        ensures
            final(self).wf(),
            forall|i: int|
                0 <= i < FUZZ_TYPE_NUM ==> #[trigger] final(self).0@[i] == (StrategyStats {
                    num_conds: Counter(0),
                    ..old(self).0@[i]
                }),
    {
        let mut i: usize = 0;
        while i < FUZZ_TYPE_NUM
            invariant
                i <= FUZZ_TYPE_NUM,
                self.wf(),
                forall|j: int|
                    0 <= j < i ==> #[trigger] self.0@[j] == (StrategyStats {
                        num_conds: Counter(0),
                        ..old(self).0@[j]
                    }),
                forall|j: int| i <= j < FUZZ_TYPE_NUM ==> #[trigger] self.0@[j] == old(self).0@[j],
            decreases FUZZ_TYPE_NUM - i,
        {
            self.0[i].num_conds = Counter(0);
            i = i + 1;
        }
    }

    /// Counts a condition for the strategy that it calls for.
    pub fn count(&mut self, cond: &CondStmt)
        requires
            old(self).wf(),
        ensures
            final(self).wf(),
            final(self).0@ == old(self).0@.update(
                cond@.fuzz_type().spec_index() as int,
                StrategyStats {
                    num_conds: Counter(
                        Counter::sum(old(self).0@[cond@.fuzz_type().spec_index() as int].num_conds.0, 1),
                    ),
                    ..old(self).0@[cond@.fuzz_type().spec_index() as int]
                },
            ),
    {
        let i = cond.get_fuzz_type().index();
        self.0[i].num_conds.count();
    }

    pub fn may_be_model_failure(&self) -> (b: bool)
        requires
            self.wf(),
        ensures
            b == self.spec_may_be_model_failure(),
    {
        let explore: u128 = self.0[FuzzType::ExploreFuzz.index()].num_conds.0 as u128;
        let afl: u128 = self.0[FuzzType::AFLFuzz.index()].num_conds.0 as u128;
        let other: u128 = self.0[FuzzType::OtherFuzz.index()].num_conds.0 as u128;
        explore + 1 < afl + other
    }

    /// The column titles of the short log.
    pub fn mini_log_hdr(&self) -> (hdr: Vec<String>)
        ensures
            texts(hdr@) == headers(FUZZ_TYPE_NUM as nat),
    {
        let mut hdr: Vec<String> = Vec::new();
        let mut i: usize = 0;
        proof {
            assert(texts(hdr@) =~= headers(0));
        }
        while i < FUZZ_TYPE_NUM
            invariant
                i <= FUZZ_TYPE_NUM,
                texts(hdr@) == headers(i as nat),
            decreases FUZZ_TYPE_NUM - i,
        {
            let conds = get_fuzz_type_label(i).concat(" conds");
            let execs = get_fuzz_type_label(i).concat(" execs");
            let ghost before = hdr@;
            hdr.push(conds);
            hdr.push(execs);
            proof {
                assert(texts(hdr@) =~= texts(before) + header_of(i as nat));
            }
            i = i + 1;
        }
        hdr
    }

    /// One row of the short log: for each strategy the number of its
    /// conditions and of its runs, in decimal.
    pub fn mini_log(&self) -> (row: Vec<String>)
        requires
            self.wf(),
        ensures
            texts(row@) == row_of(self.0@, FUZZ_TYPE_NUM as nat),
    {
        let mut row: Vec<String> = Vec::new();
        let mut i: usize = 0;
        proof {
            assert(texts(row@) =~= row_of(self.0@, 0));
        }
        while i < FUZZ_TYPE_NUM
            invariant
                i <= FUZZ_TYPE_NUM,
                self.wf(),
                texts(row@) == row_of(self.0@, i as nat),
            decreases FUZZ_TYPE_NUM - i,
        {
            let ghost before = row@;
            row.push(decimal(self.0[i].num_conds.0 as u64));
            row.push(decimal(self.0[i].num_exec.0 as u64));
            proof {
                assert(texts(row@) =~= texts(before) + cells_of(self.0@[i as int]));
            }
            i = i + 1;
        }
        row
    }
}

impl Default for FuzzStats {
    fn default() -> (stats: Self)
        ensures
            stats.wf(),
    {
        FuzzStats::new()
    }
}

} // verus!
