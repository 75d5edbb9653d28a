//! The atom/bond graph storage, kept in petgraph's `StableGraph`.
//!
//! Node and edge indices of a `StableGraph` stay valid across unrelated
//! removals. The contents of a graph are named slot by slot, so that a vacant
//! slot (left by a removal) is told apart from a live one.

use vstd::prelude::*;
use petgraph::stable_graph::{EdgeIndex, NodeIndex, StableGraph};
use crate::molecule::{AtomNode, BondOrder};

verus! {

#[verifier::external_type_specification]
#[verifier::external_body]
#[verifier::reject_recursive_types(N)]
#[verifier::reject_recursive_types(E)]
#[verifier::reject_recursive_types(Ty)]
#[verifier::reject_recursive_types(Ix)]
pub struct ExStableGraph<N, E, Ty, Ix>(StableGraph<N, E, Ty, Ix>);

#[verifier::external_type_specification]
#[verifier::external_body]
pub struct ExUndirected(petgraph::Undirected);

/// The undirected atom/bond graph, with 32-bit indices.
pub type AtomGraph = StableGraph<AtomNode, BondOrder, petgraph::Undirected, u32>;

/// What each node slot of the graph holds, by node index; `None` for a
/// vacant slot.
pub uninterp spec fn graph_nodes(g: AtomGraph) -> Seq<Option<AtomNode>>;

/// What each edge slot of the graph holds, by edge index, as the two endpoint
/// indices and the weight; `None` for a vacant slot.
pub uninterp spec fn graph_edges(g: AtomGraph) -> Seq<Option<(usize, usize, BondOrder)>>;

/// Whether every slot of a sequence is occupied.
pub open spec fn all_live<T>(s: Seq<Option<T>>) -> bool {
    forall|i: int| 0 <= i < s.len() ==> (#[trigger] s[i]) is Some
}

/// Relies on `StableGraph::default`: a new graph has no node and no edge.
#[verifier::external_body]
pub(crate) fn graph_new() -> (r: AtomGraph)
    ensures
        graph_nodes(r) == Seq::<Option<AtomNode>>::empty(),
        graph_edges(r) == Seq::<Option<(usize, usize, BondOrder)>>::empty(),
{
    StableGraph::default()
}

/// Relies on `StableGraph::add_node`: with no vacant slot, the node goes into a
/// new slot at the end, whose index is returned; edges are untouched. It
/// panics only when that index would be `u32::MAX`.
#[verifier::external_body]
pub(crate) fn graph_add_node(g: &mut AtomGraph, weight: AtomNode) -> (r: usize)
    requires
        graph_nodes(*old(g)).len() < u32::MAX,
    ensures
        graph_edges(*final(g)) == graph_edges(*old(g)),
        all_live(graph_nodes(*old(g))) ==> r == graph_nodes(*old(g)).len() && graph_nodes(
            *final(g),
        ) == graph_nodes(*old(g)).push(Some(weight)),
{
    g.add_node(weight).index()
}

/// Relies on `StableGraph::add_edge`: with no vacant edge slot, the edge goes
/// into a new slot at the end, whose index is returned; nodes are untouched.
/// It panics when an endpoint is not a live node, or when the new index would
/// be `u32::MAX`.
#[verifier::external_body]
pub(crate) fn graph_add_edge(g: &mut AtomGraph, a: usize, b: usize, weight: BondOrder) -> (r:
    usize)
    requires
        a < graph_nodes(*old(g)).len(),
        b < graph_nodes(*old(g)).len(),
        graph_nodes(*old(g))[a as int] is Some,
        graph_nodes(*old(g))[b as int] is Some,
        graph_nodes(*old(g)).len() <= u32::MAX,
        graph_edges(*old(g)).len() < u32::MAX,
    ensures
        graph_nodes(*final(g)) == graph_nodes(*old(g)),
        all_live(graph_edges(*old(g))) ==> r == graph_edges(*old(g)).len() && graph_edges(
            *final(g),
        ) == graph_edges(*old(g)).push(Some((a, b, weight))),
{
    g.add_edge(NodeIndex::new(a), NodeIndex::new(b), weight).index()
}

/// Relies on `StableGraph::node_weight`: the weight in slot `i`, if that slot
/// exists and is live.
#[verifier::external_body]
pub(crate) fn graph_node_weight(g: &AtomGraph, i: usize) -> (r: Option<&AtomNode>)
    requires
        i < u32::MAX,
    ensures
        match r {
            Some(n) => i < graph_nodes(*g).len() && graph_nodes(*g)[i as int] == Some(*n),
            None => i >= graph_nodes(*g).len() || graph_nodes(*g)[i as int] is None,
        },
{
    g.node_weight(NodeIndex::new(i))
}

/// Relies on `StableGraph::edge_count`: the number of live edges, which is
/// the number of slots when none is vacant.
#[verifier::external_body]
pub(crate) fn graph_edge_count(g: &AtomGraph) -> (r: usize)
    ensures
        all_live(graph_edges(*g)) ==> r == graph_edges(*g).len(),
{
    g.edge_count()
}

/// Relies on `StableGraph::edge_endpoints`: the two endpoints of the edge in
/// slot `i`, if that slot exists and is live.
#[verifier::external_body]
pub(crate) fn graph_edge_endpoints(g: &AtomGraph, i: usize) -> (r: Option<(usize, usize)>)
    requires
        i < u32::MAX,
    ensures
        match r {
            Some(p) => i < graph_edges(*g).len() && graph_edges(*g)[i as int] == Some(
                (p.0, p.1, graph_edges(*g)[i as int]->Some_0.2),
            ),
            None => i >= graph_edges(*g).len() || graph_edges(*g)[i as int] is None,
        },
{
    g.edge_endpoints(EdgeIndex::new(i)).map(|(a, b)| (a.index(), b.index()))
}

/// Relies on `StableGraph::edge_weight`: the weight of the edge in slot `i`,
/// if that slot exists and is live.
#[verifier::external_body]
pub(crate) fn graph_edge_weight(g: &AtomGraph, i: usize) -> (r: Option<BondOrder>)
    requires
        i < u32::MAX,
    ensures
        match r {
            Some(w) => i < graph_edges(*g).len() && graph_edges(*g)[i as int] is Some
                && graph_edges(*g)[i as int]->Some_0.2 == w,
            None => i >= graph_edges(*g).len() || graph_edges(*g)[i as int] is None,
        },
{
    g.edge_weight(EdgeIndex::new(i)).copied()
}

} // verus!
