//! The reference graph: a directed graph over object identifiers, kept in a
//! `petgraph` graph map.

use petgraph::graphmap::GraphMap;
use petgraph::Directed;
use std::hash::BuildHasher;
use vstd::prelude::*;

verus! {

#[verifier::external_type_specification]
#[verifier::external_body]
#[verifier::reject_recursive_types(N)]
#[verifier::reject_recursive_types(E)]
#[verifier::reject_recursive_types(Ty)]
#[verifier::reject_recursive_types(S)]
pub struct ExGraphMap<N, E, Ty, S: BuildHasher>(GraphMap<N, E, Ty, S>);

#[verifier::external_type_specification]
#[verifier::external_body]
pub struct ExDirected(Directed);

/// Directed graph over object identifiers, with unlabeled edges.
pub type RefGraph = GraphMap<u64, (), Directed>;

/// The nodes held by a reference graph.
pub uninterp spec fn graph_nodes(g: RefGraph) -> Set<u64>;

/// The edges held by a reference graph, as (source, target) pairs.
pub uninterp spec fn graph_edges(g: RefGraph) -> Set<(u64, u64)>;

/// `p` is a path from `from` to `to` along `edges` that visits no node twice.
pub open spec fn is_simple_path(edges: Set<(u64, u64)>, p: Seq<u64>, from: u64, to: u64) -> bool {
    &&& p.len() >= 2
    &&& p[0] == from
    &&& p[p.len() - 1] == to
    &&& p.no_duplicates()
    &&& forall|i: int| 0 <= i < p.len() - 1 ==> #[trigger] edges.contains((p[i], p[i + 1]))
}

/// `paths` holds `p` at some position.
pub open spec fn holds_path(paths: Seq<Vec<u64>>, p: Seq<u64>) -> bool {
    exists|i: int| 0 <= i < paths.len() && #[trigger] paths[i]@ == p
}

/// Relies on `GraphMap::with_capacity`: a graph with no nodes and no edges.
#[verifier::external_body]
pub(crate) fn graph_with_capacity(nodes: usize, edges: usize) -> (g: RefGraph)
    ensures
        graph_nodes(g) == Set::<u64>::empty(),
        graph_edges(g) == Set::<(u64, u64)>::empty(),
{
    GraphMap::with_capacity(nodes, edges)
}

/// Relies on `GraphMap::add_node`: the node is added, the edges stay.
#[verifier::external_body]
pub(crate) fn graph_add_node(g: &mut RefGraph, n: u64)
    ensures
        graph_nodes(*final(g)) == graph_nodes(*old(g)).insert(n),
        graph_edges(*final(g)) == graph_edges(*old(g)),
{
    g.add_node(n);
}

/// Relies on `GraphMap::add_edge`: both endpoints become nodes and the edge is
/// present once, whether or not it was before.
#[verifier::external_body]
pub(crate) fn graph_add_edge(g: &mut RefGraph, a: u64, b: u64)
    ensures
        graph_nodes(*final(g)) == graph_nodes(*old(g)).insert(a).insert(b),
        graph_edges(*final(g)) == graph_edges(*old(g)).insert((a, b)),
{
    g.add_edge(a, b, ());
}

/// Relies on `GraphMap::contains_node`.
#[verifier::external_body]
pub(crate) fn graph_contains_node(g: &RefGraph, n: u64) -> (r: bool)
    ensures
        r == graph_nodes(*g).contains(n),
{
    g.contains_node(n)
}

/// Relies on `GraphMap::contains_edge`, which for a directed graph tests the
/// edge from `a` to `b`.
#[verifier::external_body]
pub(crate) fn graph_contains_edge(g: &RefGraph, a: u64, b: u64) -> (r: bool)
    ensures
        r == graph_edges(*g).contains((a, b)),
{
    g.contains_edge(a, b)
}

/// Relies on `petgraph::algo::all_simple_paths` with at least one intermediate
/// node and no upper bound: it yields every simple path from `from` to `to`
/// of three or more nodes, and nothing else. With no upper bound it subtracts
/// one from the node count, so the graph must hold a node.
#[verifier::external_body]
pub(crate) fn graph_simple_paths(g: &RefGraph, from: u64, to: u64) -> (r: Vec<Vec<u64>>)
    requires
        from != to,
        graph_nodes(*g).contains(from),
    ensures
        forall|p: Seq<u64>|
            #[trigger] holds_path(r@, p) <==> (is_simple_path(graph_edges(*g), p, from, to)
                && p.len() >= 3),
{
    petgraph::algo::all_simple_paths::<Vec<u64>, _>(g, from, to, 1, None).collect()
}

} // verus!
