//! The directed graph under the control-flow graph. The graph itself is
//! petgraph's; what is stated of it here is taken on trust from its source.
use vstd::prelude::*;
use std::collections::hash_map::RandomState;
use std::collections::HashMap;
use petgraph::graphmap::GraphMap;
use petgraph::Directed;

verus! {

broadcast use vstd::std_specs::hash::group_hash_axioms;

/// petgraph's marker for graphs whose edges have a direction. Nothing is
/// known of it.
#[verifier::external_type_specification]
#[verifier::external_body]
pub struct ExDirected(Directed);

/// petgraph's `GraphMap`: a graph over node values, without parallel
/// edges. Its contents are known only through `graph_edges`.
#[verifier::external_type_specification]
#[verifier::external_body]
#[verifier::reject_recursive_types(N)]
#[verifier::reject_recursive_types(E)]
#[verifier::reject_recursive_types(Ty)]
#[verifier::reject_recursive_types(S)]
pub struct ExGraphMap<N, E, Ty, S: core::hash::BuildHasher>(GraphMap<N, E, Ty, S>);

/// The edges of a graph, each with its weight: what `GraphMap` holds for
/// each pair of nodes that it has an edge for.
pub uninterp spec fn graph_edges(g: GraphMap<u32, u32, Directed, RandomState>) -> Map<
    (u32, u32),
    u32,
>;

/// The edges of the empty graph.
pub open spec fn no_edges() -> Map<(u32, u32), u32> {
    Map::empty()
}

/// `walk` follows edges of `edges` from its first node to its last. A single
/// node is a walk.
pub open spec fn is_walk(edges: Set<(u32, u32)>, walk: Seq<u32>) -> bool {
    &&& walk.len() >= 1
    &&& forall|i: int| 0 <= i < walk.len() - 1 ==> #[trigger] edges.contains((walk[i], walk[i + 1]))
}

/// `to` can be reached from `from` along edges; every node reaches itself.
pub open spec fn reachable(edges: Set<(u32, u32)>, from: u32, to: u32) -> bool {
    exists|walk: Seq<u32>| #[trigger] is_walk(edges, walk) && walk.first() == from && walk.last() == to
}

/// Sum of the weights along a walk.
pub open spec fn walk_cost(weights: Map<(u32, u32), u32>, walk: Seq<u32>) -> int
    decreases walk.len(),
{
    if walk.len() <= 1 {
        0
    } else {
        walk_cost(weights, walk.drop_last()) + weights[(walk[walk.len() - 2], walk.last())]
    }
}

/// `cost` is the least cost of a walk from `from` to `to`.
#[verifier::opaque]
pub open spec fn is_least_cost(weights: Map<(u32, u32), u32>, from: u32, to: u32, cost: int) -> bool {
    &&& exists|walk: Seq<u32>| #[trigger]
        is_walk(weights.dom(), walk) && walk.first() == from && walk.last() == to && walk_cost(
            weights,
            walk,
        ) == cost
    &&& forall|walk: Seq<u32>| #[trigger]
        is_walk(weights.dom(), walk) && walk.first() == from && walk.last() == to ==> walk_cost(
            weights,
            walk,
        ) >= cost
}

/// The least cost of a walk from `from` to `to`, where there is a walk.
pub open spec fn least_cost(weights: Map<(u32, u32), u32>, from: u32, to: u32) -> Option<int> {
    if exists|c: int| is_least_cost(weights, from, to, c) {
        Some(choose|c: int| is_least_cost(weights, from, to, c))
    } else {
        None
    }
}

/// There is one least cost, and only where there is a walk.
pub proof fn lemma_least_cost(weights: Map<(u32, u32), u32>, from: u32, to: u32, cost: int)
    requires
        is_least_cost(weights, from, to, cost),
    ensures
        least_cost(weights, from, to) == Some(cost),
        reachable(weights.dom(), from, to),
{
    reveal(is_least_cost);
    let other = choose|c: int| is_least_cost(weights, from, to, c);
    let walk = choose|walk: Seq<u32>| #[trigger]
        is_walk(weights.dom(), walk) && walk.first() == from && walk.last() == to && walk_cost(
            weights,
            walk,
        ) == cost;
    let walk2 = choose|walk: Seq<u32>| #[trigger]
        is_walk(weights.dom(), walk) && walk.first() == from && walk.last() == to && walk_cost(
            weights,
            walk,
        ) == other;
    assert(is_walk(weights.dom(), walk));
    assert(is_walk(weights.dom(), walk2));
}

/// Without a walk there is no cost.
pub proof fn lemma_no_walk_no_cost(weights: Map<(u32, u32), u32>, from: u32, to: u32)
    requires
        !reachable(weights.dom(), from, to),
    ensures
        least_cost(weights, from, to).is_none(),
{
    if exists|c: int| is_least_cost(weights, from, to, c) {
        let c = choose|c: int| is_least_cost(weights, from, to, c);
        lemma_least_cost(weights, from, to, c);
    }
}

/// Calls `GraphMap::new`: a graph without nodes or edges.
#[verifier::external_body]
pub(crate) fn graph_new() -> (g: GraphMap<u32, u32, Directed, RandomState>)
    ensures
        graph_edges(g) == no_edges(),
{
    GraphMap::new()
}

/// Calls `GraphMap::add_edge`: the edge from `a` to `b` is in the graph
/// afterwards with weight `weight`, every other edge is as before, and the
/// weight that the edge had before is returned.
#[verifier::external_body]
pub(crate) fn graph_add_edge(
    g: &mut GraphMap<u32, u32, Directed, RandomState>,
    a: u32,
    b: u32,
    weight: u32,
) -> (previous: Option<u32>)
    ensures
        graph_edges(*final(g)) == graph_edges(*old(g)).insert((a, b), weight),
        previous == (if graph_edges(*old(g)).dom().contains((a, b)) {
            Some(graph_edges(*old(g))[(a, b)])
        } else {
            None
        }),
{
    g.add_edge(a, b, weight)
}

/// Calls `GraphMap::edge_weight`: the weight of the edge from `a` to `b`,
/// if the graph has that edge.
#[verifier::external_body]
pub(crate) fn graph_edge_weight(g: &GraphMap<u32, u32, Directed, RandomState>, a: u32, b: u32) -> (weight:
    Option<u32>)
    ensures
        weight == (if graph_edges(*g).dom().contains((a, b)) {
            Some(graph_edges(*g)[(a, b)])
        } else {
            None
        }),
{
    g.edge_weight(a, b).copied()
}

/// Calls `petgraph::algo::has_path_connecting`, a depth-first search from
/// `from` along outgoing edges: whether it comes by `to`.
#[verifier::external_body]
pub(crate) fn graph_has_path(g: &GraphMap<u32, u32, Directed, RandomState>, from: u32, to: u32) -> (found:
    bool)
    ensures
        found == reachable(graph_edges(*g).dom(), from, to),
{
    petgraph::algo::has_path_connecting(g, from, to, None)
}

/// Calls `petgraph::algo::dijkstra` with `to` as its goal and the edges'
/// weights as costs, summed in 64 bits. Of the costs that it returns, the
/// one of `to` is the least cost of a walk from `from` to `to`; `to` has
/// none where there is no such walk. Nothing is said of the other nodes.
#[verifier::external_body]
pub(crate) fn graph_costs(g: &GraphMap<u32, u32, Directed, RandomState>, from: u32, to: u32) -> (costs:
    HashMap<u32, u64>)
    ensures
        costs@.contains_key(to) ==> is_least_cost(graph_edges(*g), from, to, costs@[to] as int),
        !costs@.contains_key(to) ==> !reachable(graph_edges(*g).dom(), from, to),
{
    petgraph::algo::dijkstra(g, from, Some(to), |edge| u64::from(*edge.2))
}

/// The least cost of a walk from `from` to `to`, or nothing where there is
/// no such walk.
pub fn graph_least_cost(g: &GraphMap<u32, u32, Directed, RandomState>, from: u32, to: u32) -> (cost:
    Option<u64>)
    ensures
        match cost {
            Some(c) => is_least_cost(graph_edges(*g), from, to, c as int),
            None => !reachable(graph_edges(*g).dom(), from, to),
        },
{
    let costs = graph_costs(g, from, to);
    match costs.get(&to) {
        Some(c) => Some(*c),
        None => None,
    }
}

} // verus!
