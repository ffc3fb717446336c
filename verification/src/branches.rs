//! The coverage bitmap of one run, and the global record of what all runs
//! together have covered and how far they amplified.
use vstd::prelude::*;
use vstd::bytes::{spec_u64_to_le_bytes, u64_to_le_bytes};
use vstd::std_specs::hash::DefaultHasherAdditionalSpecFns;
use std::collections::hash_map::DefaultHasher;
use core::hash::Hasher;
use std::collections::HashMap;
use crate::byte_count::{AmpByteCount, AmpView};
use crate::config::BRANCHES_SIZE;
use crate::dyncfg::cfg::ControlFlowGraph;
use crate::status_type::StatusType;

verus! {

broadcast use vstd::std_specs::hash::group_hash_axioms;

/// The fingerprint of the path that one run took.
pub type BitmapHash = u64;

/// For each path that drew a reply, the best amplification seen on it.
pub type PathAmplification = HashMap<u64, AmpByteCount>;

/// Renders a value as JSON text.
pub trait JsonStr {
    fn to_json(&self) -> String;
}

/// The class of a hit count: counts of 1, 2, 3, 4 to 7, 8 to 15, 16 to 31,
/// 32 to 127 and 128 and more each have a bit of their own.
pub open spec fn bucket_of(count: u8) -> u8 {
    if count == 0 {
        0
    } else if count == 1 {
        1
    } else if count == 2 {
        2
    } else if count == 3 {
        4
    } else if count <= 7 {
        8
    } else if count <= 15 {
        16
    } else if count <= 31 {
        32
    } else if count <= 127 {
        64
    } else {
        128
    }
}

/// The class of a hit count.
pub fn bucket(count: u8) -> (b: u8)
    ensures
        b == bucket_of(count),
        (b == 0) == (count == 0),
{
    if count == 0 {
        0
    } else if count == 1 {
        1
    } else if count == 2 {
        2
    } else if count == 3 {
        4
    } else if count <= 7 {
        8
    } else if count <= 15 {
        16
    } else if count <= 31 {
        32
    } else if count <= 127 {
        64
    } else {
        128
    }
}

/// The edges that a trace hit, in the order of their indices, each with
/// the class of its count.
pub open spec fn path_of(trace: Seq<u8>) -> Seq<(usize, u8)>
    decreases trace.len(),
{
    if trace.len() == 0 {
        Seq::empty()
    } else if trace.last() > 0 {
        path_of(trace.drop_last()).push(((trace.len() - 1) as usize, bucket_of(trace.last())))
    } else {
        path_of(trace.drop_last())
    }
}

/// The indices of the edges on a path, in the path's order.
pub open spec fn indices_of(path: Seq<(usize, u8)>) -> Seq<usize> {
    path.map_values(|edge: (usize, u8)| edge.0)
}

/// The indices of a path, each as eight bytes with the lowest first, one
/// after the other.
pub open spec fn index_bytes(indices: Seq<usize>) -> Seq<u8>
    decreases indices.len(),
{
    if indices.len() == 0 {
        Seq::empty()
    } else {
        index_bytes(indices.drop_last()) + spec_u64_to_le_bytes(indices.last() as u64)
    }
}

/// The hash of a sequence of edge indices: what the standard hasher makes
/// of their bytes, written in one piece.
pub open spec fn hash_of_indices(indices: Seq<usize>) -> u64 {
    DefaultHasher::spec_finish(seq![index_bytes(indices)])
}

/// The hash of a path. It is taken over the indices alone.
pub open spec fn hash_of_path(path: Seq<(usize, u8)>) -> u64 {
    hash_of_indices(indices_of(path))
}

/// Number of edges that a trace hit.
pub open spec fn hits(trace: Seq<u8>) -> nat {
    path_of(trace).len()
}

/// Every edge on the path of a trace lies within the trace and was hit.
pub proof fn lemma_path_within(trace: Seq<u8>)
    requires
        trace.len() <= usize::MAX,
    ensures
        path_of(trace).len() <= trace.len(),
        forall|i: int|
            0 <= i < path_of(trace).len() ==> {
                &&& (#[trigger] path_of(trace)[i]).0 < trace.len()
                &&& trace[path_of(trace)[i].0 as int] > 0
                &&& path_of(trace)[i].1 == bucket_of(trace[path_of(trace)[i].0 as int])
            },
    decreases trace.len(),
{
    if trace.len() > 0 {
        let rest = trace.drop_last();
        lemma_path_within(rest);
        assert forall|i: int| 0 <= i < path_of(trace).len() implies {
            &&& (#[trigger] path_of(trace)[i]).0 < trace.len()
            &&& trace[path_of(trace)[i].0 as int] > 0
            &&& path_of(trace)[i].1 == bucket_of(trace[path_of(trace)[i].0 as int])
        } by {
            if i < path_of(rest).len() {
                assert(path_of(trace)[i] == path_of(rest)[i]);
                assert(rest[path_of(rest)[i].0 as int] == trace[path_of(rest)[i].0 as int]);
            }
        }
    }
}

/// Two traces that hit the same edges have the same path hash, whatever
/// their counts are.
pub proof fn lemma_hash_depends_on_hit_edges(a: Seq<u8>, b: Seq<u8>)
    requires
        a.len() == b.len(),
        forall|k: int| 0 <= k < a.len() ==> (a[k] > 0) == (b[k] > 0),
    ensures
        indices_of(path_of(a)) == indices_of(path_of(b)),
        hash_of_path(path_of(a)) == hash_of_path(path_of(b)),
    decreases a.len(),
{
    if a.len() > 0 {
        lemma_hash_depends_on_hit_edges(a.drop_last(), b.drop_last());
        let pa = path_of(a.drop_last());
        let pb = path_of(b.drop_last());
        if a.last() > 0 {
            let ea = ((a.len() - 1) as usize, bucket_of(a.last()));
            let eb = ((b.len() - 1) as usize, bucket_of(b.last()));
            assert(indices_of(pa.push(ea)) =~= indices_of(pa).push(ea.0));
            assert(indices_of(pb.push(eb)) =~= indices_of(pb).push(eb.0));
        }
    }
}

/// Two paths over the same edges have the same hash, whatever the classes
/// of their counts are.
pub proof fn lemma_hash_ignores_buckets(p: Seq<(usize, u8)>, q: Seq<(usize, u8)>)
    requires
        p.len() == q.len(),
        forall|i: int| 0 <= i < p.len() ==> p[i].0 == q[i].0,
    ensures
        hash_of_path(p) == hash_of_path(q),
{
    assert(indices_of(p) =~= indices_of(q));
}

/// Walks a trace and lists the edges that were hit, each with the class of
/// its count.
pub fn scan_path(trace: &[u8]) -> (path: Vec<(usize, u8)>)
    ensures
        path@ == path_of(trace@),
{
    let mut path: Vec<(usize, u8)> = Vec::new();
    let mut i: usize = 0;
    while i < trace.len()
        invariant
            i <= trace.len(),
            path@ == path_of(trace@.take(i as int)),
        decreases trace.len() - i,
    {
        proof {
            assert(trace@.take(i + 1).drop_last() =~= trace@.take(i as int));
        }
        let count = trace[i];
        if count > 0 {
            path.push((i, bucket(count)));
        }
        i = i + 1;
    }
    proof {
        assert(trace@.take(i as int) =~= trace@);
    }
    path
}

/// Hashes the indices of a path with the standard hasher.
pub fn hash_path(path: &Vec<(usize, u8)>) -> (hash: u64)
    ensures
        hash == hash_of_path(path@),
{
    let mut bytes: Vec<u8> = Vec::new();
    let mut i: usize = 0;
    while i < path.len()
        invariant
            i <= path.len(),
            bytes@ == index_bytes(indices_of(path@.take(i as int))),
        decreases path.len() - i,
    {
        let mut word = u64_to_le_bytes(path[i].0 as u64);
        proof {
            let before = indices_of(path@.take(i as int));
            let after = indices_of(path@.take(i + 1));
            assert(after.drop_last() =~= before);
            assert(after.last() == path@[i as int].0);
        }
        bytes.append(&mut word);
        i = i + 1;
    }
    proof {
        assert(path@.take(i as int) =~= path@);
    }
    let mut hasher = DefaultHasher::new();
    hasher.write(bytes.as_slice());
    proof {
        assert(hasher@ =~= seq![index_bytes(indices_of(path@))]);
    }
    hasher.finish()
}

/// The coverage bitmap that the target fills during one run.
pub struct Branches {
    trace: Vec<u8>,
}

impl View for Branches {
    type V = Seq<u8>;

    /// The hit count of each edge.
    closed spec fn view(&self) -> Seq<u8> {
        self.trace@
    }
}

impl Branches {
    /// The bitmap has one counter for each edge.
    #[verifier::type_invariant]
    closed spec fn sized(&self) -> bool {
        self.trace@.len() == BRANCHES_SIZE
    }

    /// A bitmap in which no edge was hit.
    pub fn new() -> (branches: Self)
        ensures
            branches@ == Seq::new(BRANCHES_SIZE as nat, |k: int| 0u8),
    {
        let trace: Vec<u8> = vec![0u8; BRANCHES_SIZE];
        proof {
            assert(trace@ =~= Seq::new(BRANCHES_SIZE as nat, |k: int| 0u8));
        }
        Branches { trace }
    }

    /// Forgets the hits of the last run.
    pub fn clear_trace(&mut self)
        ensures
            final(self)@ == Seq::new(BRANCHES_SIZE as nat, |k: int| 0u8),
    {
        let trace: Vec<u8> = vec![0u8; BRANCHES_SIZE];
        proof {
            assert(trace@ =~= Seq::new(BRANCHES_SIZE as nat, |k: int| 0u8));
        }
        self.trace = trace;
    }

    /// Takes over the counts that the target left in `shared`. A bitmap
    /// longer than `shared` is zero past its end.
    pub fn load_trace(&mut self, shared: &[u8])
        ensures
            final(self)@ == Seq::new(
                BRANCHES_SIZE as nat,
                |k: int|
                    if k < shared@.len() {
                        shared@[k]
                    } else {
                        0u8
                    },
            ),
    {
        let mut trace: Vec<u8> = vec![0u8; BRANCHES_SIZE];
        let mut i: usize = 0;
        while i < BRANCHES_SIZE && i < shared.len()
            invariant
                i <= BRANCHES_SIZE,
                i <= shared.len(),
                trace@.len() == BRANCHES_SIZE,
                forall|k: int| 0 <= k < i ==> trace@[k] == shared@[k],
                forall|k: int| i <= k < BRANCHES_SIZE ==> trace@[k] == 0,
            decreases BRANCHES_SIZE - i,
        {
            trace.set(i, shared[i]);
            i = i + 1;
        }
        proof {
            assert(trace@ =~= Seq::new(
                BRANCHES_SIZE as nat,
                |k: int|
                    if k < shared@.len() {
                        shared@[k]
                    } else {
                        0u8
                    },
            ));
        }
        self.trace = trace;
    }

    /// The counts of the last run.
    pub fn trace(&self) -> (trace: &Vec<u8>)
        ensures
            trace@ == self@,
    {
        &self.trace
    }

    /// The edges that the last run hit.
    pub fn get_path(&self) -> (path: Vec<(usize, u8)>)
        ensures
            path@ == path_of(self@),
    {
        scan_path(self.trace.as_slice())
    }

    /// The fingerprint of the path that the last run took.
    pub fn get_path_as_hash(&self) -> (hash: BitmapHash)
        ensures
            hash == hash_of_path(path_of(self@)),
    {
        let path = self.get_path();
        hash_path(&path)
    }
}

/// One entry of a virgin map after a run that counted `count` hits of the
/// edge: the bit of the count's class is cleared.
pub open spec fn cell_after(virgin: u8, count: u8) -> u8 {
    if count > 0 {
        virgin & !bucket_of(count)
    } else {
        virgin
    }
}

/// A virgin map after a run with the counts in `trace`.
pub open spec fn virgin_after(virgin: Seq<u8>, trace: Seq<u8>) -> Seq<u8> {
    Seq::new(virgin.len(), |k: int| cell_after(virgin[k], trace[k]))
}

/// The run hit an edge that no run had hit before.
pub open spec fn is_new_edge(virgin: u8, count: u8) -> bool {
    count > 0 && virgin == 255
}

/// The run hit an edge with a count of a class not seen on it before.
pub open spec fn is_cleared(virgin: u8, count: u8) -> bool {
    count > 0 && (bucket_of(count) & virgin) > 0
}

/// Number of edges that the run hit and no run before it.
pub open spec fn new_edges(virgin: Seq<u8>, trace: Seq<u8>) -> nat
    decreases trace.len(),
{
    if trace.len() == 0 || virgin.len() == 0 {
        0
    } else {
        new_edges(virgin.drop_last(), trace.drop_last()) + if is_new_edge(
            virgin.last(),
            trace.last(),
        ) {
            1nat
        } else {
            0nat
        }
    }
}

/// Number of edges of a virgin map that some run has hit.
pub open spec fn touched(virgin: Seq<u8>) -> nat
    decreases virgin.len(),
{
    if virgin.len() == 0 {
        0
    } else {
        touched(virgin.drop_last()) + if virgin.last() != 255 {
            1nat
        } else {
            0nat
        }
    }
}

/// The run changed the virgin map.
pub open spec fn clears_any(virgin: Seq<u8>, trace: Seq<u8>) -> bool {
    exists|k: int| 0 <= k < trace.len() && #[trigger] is_cleared(virgin[k], trace[k])
}

/// The run changed the virgin map at an edge from which a live target of
/// the graph can be reached.
pub open spec fn clears_towards_target(
    virgin: Seq<u8>,
    trace: Seq<u8>,
    cfg: ControlFlowGraph,
) -> bool {
    exists|k: int|
        0 <= k < trace.len() && #[trigger] is_cleared(virgin[k], trace[k]) && cfg.reaches_target(
            k as u32,
        )
}

/// The best amplification of each path, by value.
pub open spec fn amp_table(amps: Map<u64, AmpByteCount>) -> Map<u64, AmpView> {
    Map::new(|path: u64| amps.contains_key(path), |path: u64| amps[path]@)
}

/// The table of best amplifications after `amp` was seen on `path`: `amp`
/// is entered where the path is new or where it beats what the path had.
pub open spec fn table_after(table: Map<u64, AmpView>, path: u64, amp: AmpView) -> Map<
    u64,
    AmpView,
> {
    if table.contains_key(path) && !amp.beats(table[path]) {
        table
    } else {
        table.insert(path, amp)
    }
}

/// The best amplification after `amp` was seen.
pub open spec fn best_after(best: AmpView, amp: AmpView) -> AmpView {
    if amp.beats(best) {
        amp
    } else {
        best
    }
}

/// No bit of a virgin map comes back: what a run leaves set was set before.
pub proof fn lemma_cleared_bits_stay_cleared(virgin: u8, count: u8)
    ensures
        cell_after(virgin, count) & !virgin == 0,
        cell_after(cell_after(virgin, count), count) == cell_after(virgin, count),
        !is_cleared(cell_after(virgin, count), count),
        virgin != 255 ==> cell_after(virgin, count) != 255,
        is_new_edge(virgin, count) ==> cell_after(virgin, count) != 255,
        !is_cleared(virgin, count) ==> cell_after(virgin, count) == virgin,
{
    let b = bucket_of(count);
    assert((virgin & !b) & !virgin == 0) by (bit_vector);
    assert(virgin & !virgin == 0) by (bit_vector);
    assert((virgin & !b) & !b == virgin & !b) by (bit_vector);
    assert(b & (virgin & !b) == 0) by (bit_vector);
    assert(virgin != 255 ==> (virgin & !b) != 255) by (bit_vector);
    assert(b != 0 ==> (255u8 & !b) != 255) by (bit_vector);
    assert(b & virgin == 0 ==> (virgin & !b) == virgin) by (bit_vector);
}

/// A run touches exactly the edges that were touched before and those it
/// hit first.
pub proof fn lemma_touched_after(virgin: Seq<u8>, trace: Seq<u8>)
    requires
        virgin.len() == trace.len(),
    ensures
        touched(virgin_after(virgin, trace)) == touched(virgin) + new_edges(virgin, trace),
        touched(virgin) <= virgin.len(),
    decreases virgin.len(),
{
    if virgin.len() > 0 {
        lemma_touched_after(virgin.drop_last(), trace.drop_last());
        lemma_cleared_bits_stay_cleared(virgin.last(), trace.last());
        assert(virgin_after(virgin, trace).drop_last() =~= virgin_after(
            virgin.drop_last(),
            trace.drop_last(),
        ));
    }
}

/// The best amplification of a path never falls: after an update every
/// path that had an entry still has one, and it stands no lower than before.
pub proof fn lemma_best_amp_monotone(table: Map<u64, AmpView>, path: u64, amp: AmpView, any: u64)
    requires
        table.contains_key(any),
    ensures
        table_after(table, path, amp).contains_key(any),
        table_after(table, path, amp)[any].at_least(table[any]),
        table_after(table, path, amp).contains_key(path),
        best_after(table[any], amp).at_least(table[any]),
{
    crate::byte_count::lemma_amp_order_reflexive(table[any], table[any]);
}

/// What all runs together have covered, and how far they amplified.
pub struct GlobalBranches {
    virgin_branches: Vec<u8>,
    tmouts_branches: Vec<u8>,
    crashes_branches: Vec<u8>,
    density: usize,
    path_amplification: PathAmplification,
    max_amplification: AmpByteCount,
    cfg: ControlFlowGraph,
}

/// Which of the three virgin maps a run is held against.
#[derive(Debug, Clone, Copy, PartialEq, Eq, Structural)]
pub enum MapKind {
    Normal,
    Timeout,
    Crash,
}

/// The virgin map that a run of this outcome is held against; none for a
/// run that is skipped or failed.
pub open spec fn map_kind_of(status: StatusType) -> Option<MapKind> {
    match status {
        StatusType::Normal => Some(MapKind::Normal),
        StatusType::Amp(_, _) => Some(MapKind::Normal),
        StatusType::Timeout => Some(MapKind::Timeout),
        StatusType::Crash => Some(MapKind::Crash),
        StatusType::Skip => None,
        StatusType::Error => None,
    }
}

/// What one run of the target added to the coverage.
pub struct Sweep {
    /// Number of edges hit for the first time.
    pub new_edges: usize,
    /// Number of edges hit.
    pub edge_num: usize,
    /// The virgin map changed.
    pub cleared: bool,
    /// The virgin map changed at an edge that leads to a target.
    pub towards_target: bool,
}

/// Holds the counts of one run against a virgin map: clears in the map the
/// bit of each class of count that the run saw, and reports what was new.
/// The graph is asked about targets only where `directed` is set.
pub fn sweep(map: &mut Vec<u8>, trace: &Vec<u8>, cfg: &ControlFlowGraph, directed: bool) -> (found:
    Sweep)
    requires
        old(map)@.len() == trace@.len(),
        trace@.len() == BRANCHES_SIZE,
    ensures
        final(map)@ == virgin_after(old(map)@, trace@),
        found.new_edges == new_edges(old(map)@, trace@),
        found.edge_num == hits(trace@),
        found.cleared == clears_any(old(map)@, trace@),
        directed ==> found.towards_target == clears_towards_target(old(map)@, trace@, *cfg),
        !directed ==> !found.towards_target,
{
    let ghost before = map@;
    let mut new_count: usize = 0;
    let mut edge_num: usize = 0;
    let mut cleared = false;
    let mut towards = false;
    let mut k: usize = 0;
    while k < trace.len()
        invariant
            k <= trace@.len(),
            trace@.len() == BRANCHES_SIZE,
            map@.len() == before.len(),
            before.len() == trace@.len(),
            forall|j: int| 0 <= j < k ==> map@[j] == cell_after(before[j], trace@[j]),
            forall|j: int| k <= j < map@.len() ==> map@[j] == before[j],
            new_count == new_edges(before.take(k as int), trace@.take(k as int)),
            new_count <= k,
            edge_num == hits(trace@.take(k as int)),
            edge_num <= k,
            cleared == (exists|j: int| 0 <= j < k && #[trigger] is_cleared(before[j], trace@[j])),
            directed ==> towards == (exists|j: int|
                0 <= j < k && #[trigger] is_cleared(before[j], trace@[j]) && cfg.reaches_target(
                    j as u32,
                )),
            !directed ==> !towards,
        decreases trace@.len() - k,
    {
        proof {
            assert(trace@.take(k + 1).drop_last() =~= trace@.take(k as int));
            assert(before.take(k + 1).drop_last() =~= before.take(k as int));
            lemma_cleared_bits_stay_cleared(before[k as int], trace@[k as int]);
        }
        let count = trace[k];
        if count > 0 {
            let class = bucket(count);
            let virgin = map[k];
            edge_num = edge_num + 1;
            if virgin == 255 {
                new_count = new_count + 1;
            }
            if (class & virgin) > 0 {
                map.set(k, virgin & !class);
                cleared = true;
                if directed && !towards {
                    towards = cfg.has_path_to_target(k as u32);
                }
            }
        }
        k = k + 1;
    }
    proof {
        assert(trace@.take(k as int) =~= trace@);
        assert(before.take(k as int) =~= before);
        assert(map@ =~= virgin_after(before, trace@));
    }
    Sweep { new_edges: new_count, edge_num, cleared, towards_target: towards }
}

/// Enters the amplification of one run into the records: the best of all
/// runs, and the best of the run's path. Returns whether it beat either.
pub fn note_amp(
    best: &mut AmpByteCount,
    amps: &mut PathAmplification,
    path: u64,
    amp: &AmpByteCount,
) -> (improved: bool)
    ensures
        final(best)@ == best_after(old(best)@, amp@),
        amp_table(final(amps)@) == table_after(amp_table(old(amps)@), path, amp@),
        improved == (amp@.beats(old(best)@) || (amp_table(old(amps)@).contains_key(path)
            && amp@.beats(amp_table(old(amps)@)[path]))),
{
    let mut improved = false;
    if amp.exceeds(best) {
        *best = amp.clone();
        improved = true;
    }
    let better = match amps.get(&path) {
        Some(known) => amp.exceeds(known),
        None => false,
    };
    let known = amps.contains_key(&path);
    if better || !known {
        let _ = amps.insert(path, amp.clone());
    }
    proof {
        assert(amp_table(amps@) =~= table_after(amp_table(old(amps)@), path, amp@));
    }
    improved || better
}

/// A bit that is clear in a virgin map is clear after every run: at each
/// edge the map after the run has no bit that the map before lacked.
pub proof fn lemma_virgin_bits_never_return(virgin: Seq<u8>, trace: Seq<u8>, k: int)
    requires
        0 <= k < virgin.len(),
    ensures
        virgin_after(virgin, trace).len() == virgin.len(),
        virgin_after(virgin, trace)[k] & !virgin[k] == 0,
{
    lemma_cleared_bits_stay_cleared(virgin[k], trace[k]);
}

/// A run that hit an edge for the first time changed the virgin map.
pub proof fn lemma_new_edge_clears(virgin: Seq<u8>, trace: Seq<u8>)
    requires
        virgin.len() == trace.len(),
        new_edges(virgin, trace) > 0,
    ensures
        clears_any(virgin, trace),
    decreases trace.len(),
{
    if is_new_edge(virgin.last(), trace.last()) {
        let b = bucket_of(trace.last());
        assert(b != 0 ==> b & 255u8 > 0) by (bit_vector);
        assert(is_cleared(virgin[trace.len() - 1], trace[trace.len() - 1]));
    } else {
        lemma_new_edge_clears(virgin.drop_last(), trace.drop_last());
        let k = choose|k: int|
            0 <= k < trace.drop_last().len() && #[trigger] is_cleared(
                virgin.drop_last()[k],
                trace.drop_last()[k],
            );
        assert(is_cleared(virgin[k], trace[k]));
    }
}

/// A map in which every bit is set has no touched edge.
pub proof fn lemma_fresh_map_untouched(virgin: Seq<u8>)
    requires
        forall|k: int| 0 <= k < virgin.len() ==> virgin[k] == 255,
    ensures
        touched(virgin) == 0,
    decreases virgin.len(),
{
    if virgin.len() > 0 {
        lemma_fresh_map_untouched(virgin.drop_last());
    }
}

impl GlobalBranches {
    /// The virgin map for runs of one kind of outcome.
    pub closed spec fn virgin(&self, kind: MapKind) -> Seq<u8> {
        match kind {
            MapKind::Normal => self.virgin_branches@,
            MapKind::Timeout => self.tmouts_branches@,
            MapKind::Crash => self.crashes_branches@,
        }
    }

    /// Number of edges that ordinary runs have hit.
    pub closed spec fn density_of(&self) -> nat {
        self.density as nat
    }

    /// The best amplification seen on each path.
    pub closed spec fn amps(&self) -> Map<u64, AmpView> {
        amp_table(self.path_amplification@)
    }

    /// The best amplification seen on any path.
    pub closed spec fn best(&self) -> AmpView {
        self.max_amplification@
    }

    /// The control-flow graph that the directed gate consults.
    pub closed spec fn graph(&self) -> ControlFlowGraph {
        self.cfg
    }

    /// Each map has one entry for each edge, and the density counts the
    /// edges that ordinary runs have hit.
    pub open spec fn wf(&self) -> bool {
        &&& self.virgin(MapKind::Normal).len() == BRANCHES_SIZE
        &&& self.virgin(MapKind::Timeout).len() == BRANCHES_SIZE
        &&& self.virgin(MapKind::Crash).len() == BRANCHES_SIZE
        &&& self.density_of() == touched(self.virgin(MapKind::Normal))
    }

    /// The record before any run: every bit of every map is set, nothing was
    /// hit and nothing amplified.
    pub fn new(cfg: ControlFlowGraph) -> (global: Self)
        ensures
            global.wf(),
            global.virgin(MapKind::Normal) == Seq::new(BRANCHES_SIZE as nat, |k: int| 255u8),
            global.virgin(MapKind::Timeout) == Seq::new(BRANCHES_SIZE as nat, |k: int| 255u8),
            global.virgin(MapKind::Crash) == Seq::new(BRANCHES_SIZE as nat, |k: int| 255u8),
            global.density_of() == 0,
            global.amps() == Map::<u64, AmpView>::empty(),
            global.best() == AmpView::nothing(),
            global.graph() == cfg,
    {
        let virgin_branches: Vec<u8> = vec![255u8; BRANCHES_SIZE];
        let tmouts_branches: Vec<u8> = vec![255u8; BRANCHES_SIZE];
        let crashes_branches: Vec<u8> = vec![255u8; BRANCHES_SIZE];
        let global = GlobalBranches {
            virgin_branches,
            tmouts_branches,
            crashes_branches,
            density: 0,
            path_amplification: HashMap::new(),
            max_amplification: AmpByteCount::new(),
            cfg,
        };
        proof {
            let fresh = Seq::new(BRANCHES_SIZE as nat, |k: int| 255u8);
            assert(global.virgin_branches@ =~= fresh);
            assert(global.tmouts_branches@ =~= fresh);
            assert(global.crashes_branches@ =~= fresh);
            lemma_fresh_map_untouched(fresh);
            assert(global.amps() =~= Map::<u64, AmpView>::empty());
        }
        global
    }

    /// Number of edges that ordinary runs have hit.
    pub fn density(&self) -> (d: usize)
        ensures
            d == self.density_of(),
    {
        self.density
    }

    /// The density in hundredths of a percent of the bitmap.
    pub fn density_permyriad(&self) -> (d: usize)
        requires
            self.wf(),
        ensures
            d == (self.density_of() * 10000) as int / (BRANCHES_SIZE as int),
    {
        proof {
            lemma_touched_after(self.virgin_branches@, self.virgin_branches@);
        }
        let scaled: u64 = (self.density as u64) * 10000 / (BRANCHES_SIZE as u64);
        scaled as usize
    }

    /// The best amplification seen on any path.
    pub fn best_amp(&self) -> (amp: &AmpByteCount)
        ensures
            amp@ == self.best(),
    {
        &self.max_amplification
    }

    /// The best amplification seen on each path.
    pub fn path_amps(&self) -> (amps: &PathAmplification)
        ensures
            amp_table(amps@) == self.amps(),
    {
        &self.path_amplification
    }

    /// The control-flow graph that the directed gate consults.
    pub fn cfg(&self) -> (cfg: &ControlFlowGraph)
        ensures
            *cfg == self.graph(),
    {
        &self.cfg
    }

    /// One entry of a virgin map.
    pub fn virgin_at(&self, kind: MapKind, edge: usize) -> (bits: u8)
        requires
            self.wf(),
            edge < BRANCHES_SIZE,
        ensures
            bits == self.virgin(kind)[edge as int],
    {
        match kind {
            MapKind::Normal => self.virgin_branches[edge],
            MapKind::Timeout => self.tmouts_branches[edge],
            MapKind::Crash => self.crashes_branches[edge],
        }
    }
}

/// The virgin map that a run of this outcome is held against.
pub fn map_kind(status: &StatusType) -> (kind: Option<MapKind>)
    ensures
        kind == map_kind_of(*status),
{
    match status {
        StatusType::Normal => Some(MapKind::Normal),
        StatusType::Amp(_, _) => Some(MapKind::Normal),
        StatusType::Timeout => Some(MapKind::Timeout),
        StatusType::Crash => Some(MapKind::Crash),
        StatusType::Skip => None,
        StatusType::Error => None,
    }
}

/// Whether a run with the counts `trace` and the outcome `status` adds to
/// what `global` holds: `(has_new_path, has_new_edge, edge_num,
/// has_good_amp)`.
pub open spec fn has_new_result(
    global: GlobalBranches,
    trace: Seq<u8>,
    status: StatusType,
    directed: bool,
) -> (bool, bool, usize, bool) {
    match map_kind_of(status) {
        None => (false, false, 0usize, false),
        Some(kind) => {
            let virgin = global.virgin(kind);
            let fresh = new_edges(virgin, trace) > 0;
            (
                clears_any(virgin, trace) && (directed ==> clears_towards_target(
                    virgin,
                    trace,
                    global.graph(),
                )),
                fresh,
                hits(trace) as usize,
                match status {
                    StatusType::Amp(path, amp) => fresh || amp@.beats(global.best()) || (
                    global.amps().contains_key(path) && amp@.beats(global.amps()[path])),
                    _ => false,
                },
            )
        },
    }
}

/// What `global` holds after a run with the counts `trace` and the outcome
/// `status` was entered into `before`.
pub open spec fn has_new_effect(
    before: GlobalBranches,
    global: GlobalBranches,
    trace: Seq<u8>,
    status: StatusType,
) -> bool {
    &&& global.graph() == before.graph()
    &&& forall|kind: MapKind|
        global.virgin(kind) == (if map_kind_of(status) == Some(kind) {
            virgin_after(before.virgin(kind), trace)
        } else {
            before.virgin(kind)
        })
    &&& global.density_of() == before.density_of() + (if status.is_normal_or_amp() {
        new_edges(before.virgin(MapKind::Normal), trace)
    } else {
        0
    })
    &&& match status {
        StatusType::Amp(path, amp) => {
            &&& global.best() == best_after(before.best(), amp@)
            &&& global.amps() == table_after(before.amps(), path, amp@)
        },
        _ => global.best() == before.best() && global.amps() == before.amps(),
    }
}

/// Whatever run is entered, a bit that is clear in a virgin map stays
/// clear: at each edge of each map, what is set afterwards was set before.
pub proof fn lemma_has_new_never_sets_bits(
    before: GlobalBranches,
    after: GlobalBranches,
    trace: Seq<u8>,
    status: StatusType,
    kind: MapKind,
    k: int,
)
    requires
        has_new_effect(before, after, trace, status),
        0 <= k < before.virgin(kind).len(),
    ensures
        after.virgin(kind).len() == before.virgin(kind).len(),
        after.virgin(kind)[k] & !before.virgin(kind)[k] == 0,
{
    if map_kind_of(status) == Some(kind) {
        lemma_virgin_bits_never_return(before.virgin(kind), trace, k);
    } else {
        let v = before.virgin(kind)[k];
        assert(v & !v == 0) by (bit_vector);
    }
}

/// Whatever run is entered, the best amplification never falls: neither
/// the best of all runs nor the best of any path that had one.
pub proof fn lemma_has_new_keeps_best_amps(
    before: GlobalBranches,
    after: GlobalBranches,
    trace: Seq<u8>,
    status: StatusType,
    path: u64,
)
    requires
        has_new_effect(before, after, trace, status),
    ensures
        after.best().at_least(before.best()),
        before.amps().contains_key(path) ==> after.amps().contains_key(path)
            && after.amps()[path].at_least(before.amps()[path]),
{
    crate::byte_count::lemma_amp_order_reflexive(before.best(), before.best());
    if before.amps().contains_key(path) {
        crate::byte_count::lemma_amp_order_reflexive(before.amps()[path], before.amps()[path]);
    }
}

impl Branches {
    /// Holds the last run against what all runs before it covered, enters
    /// what is new, and reports `(has_new_path, has_new_edge, edge_num,
    /// has_good_amp)`. With `directed` set, a run has a new path only where
    /// it changed the virgin map at an edge that leads to a target.
    pub fn has_new(&self, global: &mut GlobalBranches, status: &StatusType, directed: bool) -> (r: (
        bool,
        bool,
        usize,
        bool,
    ))
        requires
            old(global).wf(),
        ensures
            final(global).wf(),
            r == has_new_result(*old(global), self@, *status, directed),
            has_new_effect(*old(global), *final(global), self@, *status),
    {
        proof {
            use_type_invariant(self);
        }
        let kind = match map_kind(status) {
            Some(kind) => kind,
            None => {
                return (false, false, 0, false);
            },
        };
        let mut map: Vec<u8> = Vec::new();
        match kind {
            MapKind::Normal => core::mem::swap(&mut map, &mut global.virgin_branches),
            MapKind::Timeout => core::mem::swap(&mut map, &mut global.tmouts_branches),
            MapKind::Crash => core::mem::swap(&mut map, &mut global.crashes_branches),
        }
        let ghost virgin = map@;
        let found = sweep(&mut map, &self.trace, &global.cfg, directed);
        match kind {
            MapKind::Normal => core::mem::swap(&mut map, &mut global.virgin_branches),
            MapKind::Timeout => core::mem::swap(&mut map, &mut global.tmouts_branches),
            MapKind::Crash => core::mem::swap(&mut map, &mut global.crashes_branches),
        }
        proof {
            lemma_touched_after(virgin, self.trace@);
            lemma_touched_after(virgin_after(virgin, self.trace@), self.trace@);
            lemma_path_within(self.trace@);
        }
        let has_new_edge = found.new_edges > 0;
        if status.counts_as_normal() {
            global.density = global.density + found.new_edges;
        }
        let mut has_good_amp = false;
        match status {
            StatusType::Amp(path, amp) => {
                let improved = note_amp(
                    &mut global.max_amplification,
                    &mut global.path_amplification,
                    *path,
                    amp,
                );
                has_good_amp = has_new_edge || improved;
            },
            _ => {},
        }
        if !found.cleared {
            return (false, has_new_edge, found.edge_num, has_good_amp);
        }
        (!directed || found.towards_target, has_new_edge, found.edge_num, has_good_amp)
    }
}

} // verus!
