//! The dynamic control-flow graph: comparison sites as nodes, an edge where
//! one site was seen right after another, the targets still to be reached,
//! and what is known of indirect calls.
use vstd::prelude::*;
use std::collections::hash_map::RandomState;
use std::collections::HashMap;
use petgraph::graphmap::GraphMap;
use petgraph::Directed;
use crate::dyncfg::graph::{
    graph_add_edge, graph_edge_weight, graph_edges, graph_has_path, graph_least_cost, graph_new,
    least_cost, lemma_least_cost, lemma_no_walk_no_cost, no_edges, reachable,
};
use crate::tag::TagSeg;

verus! {

broadcast use vstd::std_specs::hash::group_hash_axioms;

/// Score of a node from which no target can be reached.
pub const UNDEF_SCORE: u32 = 0xFFFF_FFFF;

/// Weight of an edge that a tracked run adds.
pub const DEFAULT_WEIGHT: u32 = 1;

/// The key under which an edge is filed: its two nodes side by side.
pub open spec fn edge_key_of(a: u32, b: u32) -> u64 {
    (a * 0x1_0000_0000 + b) as u64
}

fn edge_key(a: u32, b: u32) -> (k: u64)
    ensures
        k == edge_key_of(a, b),
{
    (a as u64) * 0x1_0000_0000u64 + (b as u64)
}

/// The bytes of `input` at the offsets `begin..end`, each with its offset.
pub open spec fn run_bytes(input: Seq<u8>, begin: int, end: int) -> Seq<(usize, u8)>
    decreases end - begin,
{
    if begin >= end {
        Seq::empty()
    } else {
        run_bytes(input, begin, end - 1).push(((end - 1) as usize, input[end - 1]))
    }
}

/// The bytes of `input` under a range, each with its offset; offsets past
/// the input's end are left out.
pub open spec fn seg_bytes(input: Seq<u8>, seg: TagSeg) -> Seq<(usize, u8)> {
    run_bytes(
        input,
        seg.begin as int,
        if seg.end <= input.len() {
            seg.end as int
        } else {
            input.len() as int
        },
    )
}

/// The bytes of `input` under each of the ranges in turn.
pub open spec fn fixed_bytes(input: Seq<u8>, offsets: Seq<TagSeg>) -> Seq<(usize, u8)>
    decreases offsets.len(),
{
    if offsets.len() == 0 {
        Seq::empty()
    } else {
        fixed_bytes(input, offsets.drop_last()) + seg_bytes(input, offsets.last())
    }
}

/// What a snapshot of the static analysis adds to the live targets.
pub open spec fn with_targets(live: Set<u32>, added: Seq<u32>) -> Set<u32> {
    live.union(added.to_set())
}

/// The weights after the edges of a snapshot were merged in: an edge that
/// was there keeps its weight, a new one has the default weight.
pub open spec fn with_edges(weights: Map<(u32, u32), u32>, added: Seq<(u32, u32)>) -> Map<
    (u32, u32),
    u32,
> {
    Map::new(
        |e: (u32, u32)| weights.dom().contains(e) || added.contains(e),
        |e: (u32, u32)|
            if weights.dom().contains(e) {
                weights[e]
            } else {
                DEFAULT_WEIGHT
            },
    )
}

/// Least costs never exceed this; a score is the cost cut off below
/// `UNDEF_SCORE`.
pub open spec fn clip(cost: int) -> u32 {
    if cost >= UNDEF_SCORE {
        (UNDEF_SCORE - 1) as u32
    } else {
        cost as u32
    }
}

/// Of the pairs of a call site and a dominating node, the nodes recorded
/// for `callsite`.
pub open spec fn dominators_in(pairs: Seq<(u32, u32)>, callsite: u32) -> Seq<u32>
    decreases pairs.len(),
{
    if pairs.len() == 0 {
        Seq::empty()
    } else if pairs.last().0 == callsite {
        dominators_in(pairs.drop_last(), callsite).push(pairs.last().1)
    } else {
        dominators_in(pairs.drop_last(), callsite)
    }
}

pub struct ControlFlowGraph {
    graph: GraphMap<u32, u32, Directed, RandomState>,
    targets: Vec<u32>,
    indirect_edges: HashMap<u64, u32>,
    dominators: Vec<(u32, u32)>,
    magic_bytes: HashMap<u64, Vec<(usize, u8)>>,
}

impl ControlFlowGraph {
    /// The edges, each with its weight.
    pub closed spec fn weights(&self) -> Map<(u32, u32), u32> {
        graph_edges(self.graph)
    }

    /// The targets that have not been retired.
    pub closed spec fn live_targets(&self) -> Set<u32> {
        self.targets@.to_set()
    }

    /// The call site recorded for each indirect edge, by the edge's key.
    pub closed spec fn indirect(&self) -> Map<u64, u32> {
        self.indirect_edges@
    }

    /// The pairs of a call site and a node that dominates it.
    pub closed spec fn dominator_pairs(&self) -> Seq<(u32, u32)> {
        self.dominators@
    }

    /// The input bytes recorded for each indirect edge, by the edge's key.
    pub closed spec fn magic(&self) -> Map<u64, Seq<(usize, u8)>> {
        Map::new(
            |k: u64| self.magic_bytes@.contains_key(k),
            |k: u64| self.magic_bytes@[k]@,
        )
    }

    pub open spec fn has_edge_spec(&self, a: u32, b: u32) -> bool {
        self.weights().dom().contains((a, b))
    }

    pub open spec fn is_target_spec(&self, node: u32) -> bool {
        self.live_targets().contains(node)
    }

    /// Some live target can be reached from `node`.
    pub open spec fn reaches_target(&self, node: u32) -> bool {
        exists|t: u32| #[trigger]
            self.live_targets().contains(t) && reachable(self.weights().dom(), node, t)
    }

    /// `cost` is the least cost at which a live target is reached from
    /// `node`.
    pub open spec fn is_nearest_cost(&self, node: u32, cost: int) -> bool {
        &&& exists|t: u32| #[trigger]
            self.live_targets().contains(t) && least_cost(self.weights(), node, t) == Some(cost)
        &&& forall|t: u32| #[trigger]
            self.live_targets().contains(t) ==> match least_cost(self.weights(), node, t) {
                Some(c) => cost <= c,
                None => true,
            }
    }

    /// `score` is the score of `node`: the least cost to a live target, cut
    /// off below `UNDEF_SCORE`, or `UNDEF_SCORE` where none can be reached.
    pub open spec fn is_score(&self, node: u32, score: u32) -> bool {
        if self.reaches_target(node) {
            exists|cost: int| #[trigger] self.is_nearest_cost(node, cost) && score == clip(cost)
        } else {
            score == UNDEF_SCORE
        }
    }

    /// The score of `node`.
    pub open spec fn score(&self, node: u32) -> u32 {
        choose|score: u32| self.is_score(node, score)
    }

    /// A node has one score.
    pub proof fn lemma_score_unique(&self, node: u32, a: u32, b: u32)
        requires
            self.is_score(node, a),
            self.is_score(node, b),
        ensures
            a == b,
            self.score(node) == a,
    {
        if self.reaches_target(node) {
            let ca = choose|cost: int| #[trigger] self.is_nearest_cost(node, cost) && a == clip(cost);
            let cb = choose|cost: int| #[trigger] self.is_nearest_cost(node, cost) && b == clip(cost);
            let ta = choose|t: u32| #[trigger]
                self.live_targets().contains(t) && least_cost(self.weights(), node, t) == Some(ca);
            let tb = choose|t: u32| #[trigger]
                self.live_targets().contains(t) && least_cost(self.weights(), node, t) == Some(cb);
            assert(self.live_targets().contains(ta));
            assert(self.live_targets().contains(tb));
            assert(ca <= cb);
            assert(cb <= ca);
        }
        let c = self.score(node);
        if c != a {
            if self.reaches_target(node) {
                let ca = choose|cost: int| #[trigger]
                    self.is_nearest_cost(node, cost) && a == clip(cost);
                let cc = choose|cost: int| #[trigger]
                    self.is_nearest_cost(node, cost) && c == clip(cost);
                let ta = choose|t: u32| #[trigger]
                    self.live_targets().contains(t) && least_cost(self.weights(), node, t) == Some(
                        ca,
                    );
                let tc = choose|t: u32| #[trigger]
                    self.live_targets().contains(t) && least_cost(self.weights(), node, t) == Some(
                        cc,
                    );
                assert(self.live_targets().contains(ta));
                assert(self.live_targets().contains(tc));
                assert(ca <= cc);
                assert(cc <= ca);
            }
        }
    }

    /// `node` dominates some indirect call site.
    pub open spec fn dominates_spec(&self, node: u32) -> bool {
        exists|i: int| 0 <= i < self.dominator_pairs().len() && (#[trigger] self.dominator_pairs()[i]).1
            == node
    }

    /// The nodes that dominate `callsite`, in the order in which they were
    /// recorded.
    pub open spec fn dominators_of(&self, callsite: u32) -> Seq<u32> {
        dominators_in(self.dominator_pairs(), callsite)
    }

    /// The graph without nodes, edges or targets.
    pub fn new() -> (cfg: Self)
        ensures
            cfg.weights() == no_edges(),
            cfg.live_targets() == Set::<u32>::empty(),
            cfg.indirect() == Map::<u64, u32>::empty(),
            cfg.dominator_pairs().len() == 0,
            cfg.magic() == Map::<u64, Seq<(usize, u8)>>::empty(),
    {
        let cfg = ControlFlowGraph {
            graph: graph_new(),
            targets: Vec::new(),
            indirect_edges: HashMap::new(),
            dominators: Vec::new(),
            magic_bytes: HashMap::new(),
        };
        proof {
            assert(cfg.magic() =~= Map::<u64, Seq<(usize, u8)>>::empty());
            assert(cfg.live_targets() =~= Set::<u32>::empty());
        }
        cfg
    }

    /// Makes sure the edge is in the graph. An edge that is there keeps its
    /// weight; a new one gets the default weight. Returns whether the edge
    /// is new.
    pub fn add_edge(&mut self, edge: (u32, u32)) -> (is_new: bool)
        ensures
            is_new == !old(self).has_edge_spec(edge.0, edge.1),
            final(self).weights() == (if is_new {
                old(self).weights().insert(edge, DEFAULT_WEIGHT)
            } else {
                old(self).weights()
            }),
            final(self).has_edge_spec(edge.0, edge.1),
            final(self).live_targets() == old(self).live_targets(),
            final(self).indirect() == old(self).indirect(),
            final(self).dominator_pairs() == old(self).dominator_pairs(),
            final(self).magic() == old(self).magic(),
    {
        let present = graph_edge_weight(&self.graph, edge.0, edge.1);
        match present {
            Some(_) => false,
            None => {
                let _ = graph_add_edge(&mut self.graph, edge.0, edge.1, DEFAULT_WEIGHT);
                true
            },
        }
    }

    pub fn has_edge(&self, edge: (u32, u32)) -> (b: bool)
        ensures
            b == self.has_edge_spec(edge.0, edge.1),
    {
        graph_edge_weight(&self.graph, edge.0, edge.1).is_some()
    }

    /// Adds a target to be reached.
    pub fn add_target(&mut self, node: u32)
        ensures
            final(self).live_targets() == old(self).live_targets().insert(node),
            final(self).weights() == old(self).weights(),
            final(self).indirect() == old(self).indirect(),
            final(self).dominator_pairs() == old(self).dominator_pairs(),
            final(self).magic() == old(self).magic(),
    {
        self.targets.push(node);
        proof {
            let before = old(self).targets@;
            assert forall|t: u32| #[trigger]
                self.targets@.contains(t) == (before.contains(t) || t == node) by {
                if before.contains(t) {
                    let j = choose|j: int| 0 <= j < before.len() && before[j] == t;
                    assert(self.targets@[j] == t);
                }
                if t == node {
                    assert(self.targets@[before.len() as int] == t);
                }
            }
            assert(self.live_targets() =~= old(self).live_targets().insert(node));
        }
    }

    pub fn is_target(&self, node: u32) -> (b: bool)
        ensures
            b == self.is_target_spec(node),
    {
        let mut i: usize = 0;
        while i < self.targets.len()
            invariant
                i <= self.targets.len(),
                forall|j: int| 0 <= j < i ==> self.targets@[j] != node,
            decreases self.targets.len() - i,
        {
            if self.targets[i] == node {
                return true;
            }
            i = i + 1;
        }
        false
    }

    /// Retires a target: it no longer counts for reachability or scores.
    pub fn remove_target(&mut self, node: u32)
        ensures
            final(self).live_targets() == old(self).live_targets().remove(node),
            final(self).weights() == old(self).weights(),
            final(self).indirect() == old(self).indirect(),
            final(self).dominator_pairs() == old(self).dominator_pairs(),
            final(self).magic() == old(self).magic(),
    {
        let ghost before = self.targets@;
        let mut kept: Vec<u32> = Vec::new();
        let mut i: usize = 0;
        while i < self.targets.len()
            invariant
                i <= self.targets.len(),
                self.targets@ == before,
                forall|t: u32|
                    kept@.contains(t) <==> (t != node && exists|j: int|
                        0 <= j < i && before[j] == t),
            decreases self.targets.len() - i,
        {
            let t = self.targets[i];
            let ghost kept_before = kept@;
            if t != node {
                kept.push(t);
                proof {
                    assert(kept@[kept_before.len() as int] == t);
                    assert forall|x: u32| kept@.contains(x) implies (x != node && exists|j: int|
                        0 <= j < i + 1 && before[j] == x) by {
                        let k = choose|k: int| 0 <= k < kept@.len() && kept@[k] == x;
                        if k < kept_before.len() {
                            assert(kept_before[k] == x);
                            assert(kept_before.contains(x));
                        } else {
                            assert(before[i as int] == x);
                        }
                    }
                    assert forall|x: u32|
                        (x != node && exists|j: int|
                            0 <= j < i + 1 && before[j] == x) implies kept@.contains(x) by {
                        let j = choose|j: int| 0 <= j < i + 1 && before[j] == x;
                        if j < i {
                            assert(kept_before.contains(x));
                            let k = choose|k: int| 0 <= k < kept_before.len() && kept_before[k] == x;
                            assert(kept@[k] == x);
                        }
                    }
                }
            }
            i = i + 1;
        }
        self.targets = kept;
        proof {
            assert(self.live_targets() =~= old(self).live_targets().remove(node));
        }
    }

    /// Whether some live target can be reached from `node`.
    pub fn has_path_to_target(&self, node: u32) -> (b: bool)
        ensures
            b == self.reaches_target(node),
    {
        let mut i: usize = 0;
        while i < self.targets.len()
            invariant
                i <= self.targets.len(),
                forall|j: int|
                    0 <= j < i ==> !reachable(
                        graph_edges(self.graph).dom(),
                        node,
                        #[trigger] self.targets@[j],
                    ),
            decreases self.targets.len() - i,
        {
            if graph_has_path(&self.graph, node, self.targets[i]) {
                proof {
                    assert(self.targets@.contains(self.targets@[i as int]));
                    assert(self.live_targets().contains(self.targets@[i as int]));
                }
                return true;
            }
            i = i + 1;
        }
        false
    }

    /// The cost of the cheapest walk from `node` to a live target.
    fn nearest_cost(&self, node: u32) -> (best: Option<u64>)
        ensures
            match best {
                Some(c) => self.reaches_target(node) && self.is_nearest_cost(node, c as int),
                None => !self.reaches_target(node),
            },
    {
        let mut best: Option<u64> = None;
        let ghost mut at: int = 0;
        let mut i: usize = 0;
        while i < self.targets.len()
            invariant
                i <= self.targets.len(),
                match best {
                    Some(b) => {
                        &&& 0 <= at < i
                        &&& least_cost(graph_edges(self.graph), node, self.targets@[at]) == Some(
                            b as int,
                        )
                        &&& reachable(graph_edges(self.graph).dom(), node, self.targets@[at])
                        &&& forall|j: int|
                            0 <= j < i ==> match least_cost(
                                graph_edges(self.graph),
                                node,
                                #[trigger] self.targets@[j],
                            ) {
                                Some(c) => b <= c,
                                None => true,
                            }
                    },
                    None => forall|j: int|
                        0 <= j < i ==> !reachable(
                            graph_edges(self.graph).dom(),
                            node,
                            #[trigger] self.targets@[j],
                        ) && least_cost(graph_edges(self.graph), node, self.targets@[j]).is_none(),
                },
            decreases self.targets.len() - i,
        {
            let found = graph_least_cost(&self.graph, node, self.targets[i]);
            match found {
                Some(c) => {
                    proof {
                        lemma_least_cost(
                            graph_edges(self.graph),
                            node,
                            self.targets@[i as int],
                            c as int,
                        );
                    }
                    let better = match best {
                        Some(b) => c < b,
                        None => true,
                    };
                    if better {
                        best = Some(c);
                        proof {
                            at = i as int;
                        }
                    }
                },
                None => {
                    proof {
                        lemma_no_walk_no_cost(graph_edges(self.graph), node, self.targets@[i as int]);
                    }
                },
            }
            i = i + 1;
        }
        proof {
            match best {
                Some(b) => {
                    assert(self.targets@.contains(self.targets@[at]));
                    assert(self.live_targets().contains(self.targets@[at]));
                    assert forall|t: u32| #[trigger] self.live_targets().contains(t) implies (
                    match least_cost(self.weights(), node, t) {
                        Some(c) => b <= c,
                        None => true,
                    }) by {
                        let j = choose|j: int| 0 <= j < self.targets@.len() && self.targets@[j] == t;
                        assert(self.targets@[j] == t);
                    }
                },
                None => {
                    assert forall|t: u32| #[trigger]
                        self.live_targets().contains(t) implies !reachable(
                        self.weights().dom(),
                        node,
                        t,
                    ) by {
                        let j = choose|j: int| 0 <= j < self.targets@.len() && self.targets@[j] == t;
                        assert(self.targets@[j] == t);
                    }
                },
            }
        }
        best
    }

    /// The score of `node`: the least cost to a live target, cut off below
    /// `UNDEF_SCORE`, or `UNDEF_SCORE` where none can be reached.
    pub fn score_for_cmp(&self, node: u32) -> (score: u32)
        ensures
            self.is_score(node, score),
            score == self.score(node),
            (score == UNDEF_SCORE) == !self.reaches_target(node),
    {
        let score = match self.nearest_cost(node) {
            Some(c) => {
                if c >= 0xFFFF_FFFFu64 {
                    0xFFFF_FFFEu32
                } else {
                    low_word(c)
                }
            },
            None => UNDEF_SCORE,
        };
        proof {
            self.lemma_score_unique(node, score, score);
        }
        score
    }

    /// The score of `node` for a condition whose probe bytes are
    /// `variables`. The probe bytes do not change the score.
    pub fn score_for_cmp_inp(&self, node: u32, variables: &Vec<u8>) -> (score: u32)
        ensures
            self.is_score(node, score),
            score == self.score(node),
            (score == UNDEF_SCORE) == !self.reaches_target(node),
    {
        self.score_for_cmp(node)
    }

    /// Marks an edge as one that an indirect call at `callsite` takes.
    pub fn set_edge_indirect(&mut self, edge: (u32, u32), callsite: u32)
        ensures
            final(self).indirect() == old(self).indirect().insert(
                edge_key_of(edge.0, edge.1),
                callsite,
            ),
            final(self).weights() == old(self).weights(),
            final(self).live_targets() == old(self).live_targets(),
            final(self).dominator_pairs() == old(self).dominator_pairs(),
            final(self).magic() == old(self).magic(),
    {
        let _ = self.indirect_edges.insert(edge_key(edge.0, edge.1), callsite);
    }

    /// The call site recorded for an indirect edge.
    pub fn callsite_of(&self, edge: (u32, u32)) -> (callsite: Option<u32>)
        ensures
            callsite == (if self.indirect().contains_key(edge_key_of(edge.0, edge.1)) {
                Some(self.indirect()[edge_key_of(edge.0, edge.1)])
            } else {
                None
            }),
    {
        let key = edge_key(edge.0, edge.1);
        match self.indirect_edges.get(&key) {
            Some(c) => Some(*c),
            None => None,
        }
    }

    /// Records that `node` dominates every path through `callsite`.
    pub fn add_callsite_dominator(&mut self, callsite: u32, node: u32)
        ensures
            final(self).dominator_pairs() == old(self).dominator_pairs().push((callsite, node)),
            final(self).weights() == old(self).weights(),
            final(self).live_targets() == old(self).live_targets(),
            final(self).indirect() == old(self).indirect(),
            final(self).magic() == old(self).magic(),
    {
        self.dominators.push((callsite, node));
    }

    /// The nodes that dominate `callsite`.
    pub fn get_callsite_dominators(&self, callsite: u32) -> (nodes: Vec<u32>)
        ensures
            nodes@ == self.dominators_of(callsite),
    {
        let mut nodes: Vec<u32> = Vec::new();
        let mut i: usize = 0;
        while i < self.dominators.len()
            invariant
                i <= self.dominators.len(),
                nodes@ == dominators_in(self.dominators@.take(i as int), callsite),
            decreases self.dominators.len() - i,
        {
            proof {
                assert(self.dominators@.take(i + 1).drop_last() =~= self.dominators@.take(i as int));
            }
            if self.dominators[i].0 == callsite {
                nodes.push(self.dominators[i].1);
            }
            i = i + 1;
        }
        proof {
            assert(self.dominators@.take(i as int) =~= self.dominators@);
        }
        nodes
    }

    /// Whether `node` dominates some indirect call site.
    pub fn dominates_indirect_call(&self, node: u32) -> (b: bool)
        ensures
            b == self.dominates_spec(node),
    {
        let mut i: usize = 0;
        while i < self.dominators.len()
            invariant
                i <= self.dominators.len(),
                forall|j: int| 0 <= j < i ==> (#[trigger] self.dominators@[j]).1 != node,
            decreases self.dominators.len() - i,
        {
            if self.dominators[i].1 == node {
                proof {
                    assert(self.dominator_pairs()[i as int].1 == node);
                }
                return true;
            }
            i = i + 1;
        }
        false
    }

    /// Records, for an indirect edge, the bytes that `input` holds under
    /// `offsets`. What was recorded before for the edge is replaced.
    pub fn set_magic_bytes(&mut self, edge: (u32, u32), input: &Vec<u8>, offsets: &Vec<TagSeg>)
        ensures
            final(self).magic() == old(self).magic().insert(
                edge_key_of(edge.0, edge.1),
                fixed_bytes(input@, offsets@),
            ),
            final(self).weights() == old(self).weights(),
            final(self).live_targets() == old(self).live_targets(),
            final(self).indirect() == old(self).indirect(),
            final(self).dominator_pairs() == old(self).dominator_pairs(),
    {
        let fixed = collect_fixed_bytes(input, offsets);
        let _ = self.magic_bytes.insert(edge_key(edge.0, edge.1), fixed);
        proof {
            assert(self.magic() =~= old(self).magic().insert(
                edge_key_of(edge.0, edge.1),
                fixed_bytes(input@, offsets@),
            ));
        }
    }

    /// The bytes recorded for an indirect edge; none where nothing was
    /// recorded.
    pub fn get_magic_bytes(&self, edge: (u32, u32)) -> (bytes: Vec<(usize, u8)>)
        ensures
            bytes@ == (if self.magic().contains_key(edge_key_of(edge.0, edge.1)) {
                self.magic()[edge_key_of(edge.0, edge.1)]
            } else {
                Seq::empty()
            }),
    {
        let key = edge_key(edge.0, edge.1);
        match self.magic_bytes.get(&key) {
            Some(recorded) => {
                let mut bytes: Vec<(usize, u8)> = Vec::new();
                let mut i: usize = 0;
                while i < recorded.len()
                    invariant
                        i <= recorded.len(),
                        bytes@ == recorded@.take(i as int),
                    decreases recorded.len() - i,
                {
                    bytes.push(recorded[i]);
                    proof {
                        assert(recorded@.take(i + 1) =~= recorded@.take(i as int).push(
                            recorded@[i as int],
                        ));
                    }
                    i = i + 1;
                }
                proof {
                    assert(recorded@.take(i as int) =~= recorded@);
                }
                bytes
            },
            None => Vec::new(),
        }
    }

    /// Merges a snapshot of the static analysis: its targets become live,
    /// its edges are added with the default weight where they are new, and
    /// its pairs of call site and dominator are recorded after those known.
    pub fn append(
        &mut self,
        targets: &Vec<u32>,
        edges: &Vec<(u32, u32)>,
        dominators: &Vec<(u32, u32)>,
    )
        ensures
            final(self).live_targets() == with_targets(old(self).live_targets(), targets@),
            final(self).weights() == with_edges(old(self).weights(), edges@),
            final(self).dominator_pairs() == old(self).dominator_pairs() + dominators@,
            final(self).indirect() == old(self).indirect(),
            final(self).magic() == old(self).magic(),
    {
        let mut i: usize = 0;
        while i < targets.len()
            invariant
                i <= targets.len(),
                self.live_targets() == with_targets(
                    old(self).live_targets(),
                    targets@.take(i as int),
                ),
                self.weights() == old(self).weights(),
                self.dominator_pairs() == old(self).dominator_pairs(),
                self.indirect() == old(self).indirect(),
                self.magic() == old(self).magic(),
            decreases targets.len() - i,
        {
            self.add_target(targets[i]);
            proof {
                let before = targets@.take(i as int);
                let after = targets@.take(i + 1);
                assert(after =~= before.push(targets@[i as int]));
                assert forall|t: u32| #[trigger]
                    after.contains(t) == (before.contains(t) || t == targets@[i as int]) by {
                    if before.contains(t) {
                        let j = choose|j: int| 0 <= j < before.len() && before[j] == t;
                        assert(after[j] == t);
                    }
                    if t == targets@[i as int] {
                        assert(after[i as int] == t);
                    }
                }
                assert(self.live_targets() =~= with_targets(old(self).live_targets(), after));
            }
            i = i + 1;
        }
        proof {
            assert(targets@.take(i as int) =~= targets@);
        }
        let mut k: usize = 0;
        while k < edges.len()
            invariant
                k <= edges.len(),
                self.live_targets() == with_targets(old(self).live_targets(), targets@),
                self.weights() == with_edges(old(self).weights(), edges@.take(k as int)),
                self.dominator_pairs() == old(self).dominator_pairs(),
                self.indirect() == old(self).indirect(),
                self.magic() == old(self).magic(),
            decreases edges.len() - k,
        {
            let _ = self.add_edge(edges[k]);
            proof {
                let before = edges@.take(k as int);
                let after = edges@.take(k + 1);
                assert(after =~= before.push(edges@[k as int]));
                assert forall|e: (u32, u32)| #[trigger]
                    after.contains(e) == (before.contains(e) || e == edges@[k as int]) by {
                    if before.contains(e) {
                        let j = choose|j: int| 0 <= j < before.len() && before[j] == e;
                        assert(after[j] == e);
                    }
                    if e == edges@[k as int] {
                        assert(after[k as int] == e);
                    }
                }
                assert(self.weights() =~= with_edges(old(self).weights(), after));
            }
            k = k + 1;
        }
        proof {
            assert(edges@.take(k as int) =~= edges@);
        }
        let mut d: usize = 0;
        while d < dominators.len()
            invariant
                d <= dominators.len(),
                self.live_targets() == with_targets(old(self).live_targets(), targets@),
                self.weights() == with_edges(old(self).weights(), edges@),
                self.dominator_pairs() == old(self).dominator_pairs() + dominators@.take(d as int),
                self.indirect() == old(self).indirect(),
                self.magic() == old(self).magic(),
            decreases dominators.len() - d,
        {
            self.add_callsite_dominator(dominators[d].0, dominators[d].1);
            proof {
                assert(old(self).dominator_pairs() + dominators@.take(d + 1) =~= (old(
                    self,
                ).dominator_pairs() + dominators@.take(d as int)).push(dominators@[d as int]));
            }
            d = d + 1;
        }
        proof {
            assert(dominators@.take(d as int) =~= dominators@);
        }
    }
}

fn low_word(c: u64) -> (r: u32)
    requires
        c < 0xFFFF_FFFF,
    ensures
        r == c,
{
    c as u32
}

} // verus!

verus! {

/// Gathers the bytes that `input` holds under `offsets`.
pub fn collect_fixed_bytes(input: &Vec<u8>, offsets: &Vec<TagSeg>) -> (fixed: Vec<(usize, u8)>)
    ensures
        fixed@ == fixed_bytes(input@, offsets@),
{
    let mut fixed: Vec<(usize, u8)> = Vec::new();
    let mut s: usize = 0;
    while s < offsets.len()
        invariant
            s <= offsets.len(),
            fixed@ == fixed_bytes(input@, offsets@.take(s as int)),
        decreases offsets.len() - s,
    {
        let seg = offsets[s];
        let begin: usize = seg.begin as usize;
        let end: usize = if (seg.end as usize) <= input.len() {
            seg.end as usize
        } else {
            input.len()
        };
        let ghost done = fixed@;
        let mut i: usize = begin;
        while i < end
            invariant
                begin <= i,
                i <= end || i == begin,
                end <= input.len(),
                fixed@ == done + run_bytes(input@, begin as int, i as int),
            decreases end - i,
        {
            fixed.push((i, input[i]));
            proof {
                assert(run_bytes(input@, begin as int, i + 1) == run_bytes(
                    input@,
                    begin as int,
                    i as int,
                ).push((i, input@[i as int])));
                assert(done + run_bytes(input@, begin as int, i + 1) =~= (done + run_bytes(
                    input@,
                    begin as int,
                    i as int,
                )).push((i, input@[i as int])));
            }
            i = i + 1;
        }
        proof {
            assert(offsets@.take(s + 1).drop_last() =~= offsets@.take(s as int));
            assert(offsets@.take(s + 1).last() == seg);
            assert(run_bytes(input@, begin as int, i as int) == run_bytes(
                input@,
                begin as int,
                end as int,
            ));
        }
        s = s + 1;
    }
    proof {
        assert(offsets@.take(s as int) =~= offsets@);
    }
    fixed
}

} // verus!
