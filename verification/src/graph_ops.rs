//! The graph that holds the records, and what is taken on trust about it.
//!
//! The graph is `petgraph`'s. Verus cannot look inside one, so this file names
//! what a graph holds ([`graph_nodes`], [`graph_edges`]) and states, for each
//! method of `petgraph` that the library calls, what the method does to them.
//! None of these statements is proved: they are read off `petgraph`'s source.

use crate::patient::Patient;
use petgraph::graph::{Graph, NodeIndex};
use petgraph::Undirected;
use vstd::multiset::Multiset;
use vstd::prelude::*;

verus! {

/// `petgraph::graph::Graph`, as a type whose inside Verus does not see.
#[verifier::external_type_specification]
#[verifier::external_body]
#[verifier::reject_recursive_types(N)]
#[verifier::reject_recursive_types(E)]
#[verifier::reject_recursive_types(Ty)]
#[verifier::reject_recursive_types(Ix)]
pub struct ExGraph<N, E, Ty, Ix>(Graph<N, E, Ty, Ix>);

/// `petgraph::Undirected`, the marker of a graph whose edges have no direction.
#[verifier::external_type_specification]
#[verifier::external_body]
pub struct ExUndirected(Undirected);

/// An undirected graph with a record at each node and a similarity score on each
/// edge.
pub type SimilarityGraph = Graph<Patient, u32, Undirected, u32>;

/// One edge of a graph: the indices of the two nodes it joins, in the order in
/// which they were given when the edge was added, and its weight.
#[derive(Clone, Copy, Debug, PartialEq, Eq)]
pub struct Edge {
    pub source: usize,
    pub target: usize,
    pub weight: u32,
}

/// The records at the nodes of a graph, by node index.
pub uninterp spec fn graph_nodes(graph: SimilarityGraph) -> Seq<Patient>;

/// The edges of a graph, by edge index: in the order in which they were added.
pub uninterp spec fn graph_edges(graph: SimilarityGraph) -> Seq<Edge>;

/// The most nodes, and the most edges, that a graph can hold: its indices are
/// 32-bit and the highest value is kept free.
pub const GRAPH_CAPACITY: usize = 0xffff_ffff;

/// Whether every edge joins two of the first `node_count` nodes.
pub open spec fn edges_join_nodes(edges: Seq<Edge>, node_count: nat) -> bool {
    forall|k: int|
        0 <= k < edges.len() ==> (#[trigger] edges[k]).source < node_count && edges[k].target
            < node_count
}

/// The nodes that the edges join to node `a`, one for each edge that has `a` at
/// an end: the other end of that edge (`a` itself for an edge from `a` to `a`).
pub open spec fn adjacent(edges: Seq<Edge>, a: usize) -> Multiset<usize>
    decreases edges.len(),
{
    if edges.len() == 0 {
        Multiset::empty()
    } else {
        let rest = adjacent(edges.drop_last(), a);
        let e = edges.last();
        if e.source == a {
            rest.insert(e.target)
        } else if e.target == a {
            rest.insert(e.source)
        } else {
            rest
        }
    }
}

/// `Graph::new_undirected`: a graph without nodes or edges.
#[verifier::external_body]
pub(crate) fn new_graph() -> (graph: SimilarityGraph)
    ensures
        graph_nodes(graph) == Seq::<Patient>::empty(),
        graph_edges(graph) == Seq::<Edge>::empty(),
{
    Graph::new_undirected()
}

/// `Graph::clone`: a graph with the same nodes and edges under the same
/// indices. As in every graph of `petgraph`, each edge joins two nodes that the
/// graph holds: an edge can only be added between existing nodes.
#[verifier::external_body]
pub(crate) fn clone_graph(graph: &SimilarityGraph) -> (copy: SimilarityGraph)
    ensures
        graph_nodes(copy) == graph_nodes(*graph),
        graph_edges(copy) == graph_edges(*graph),
        edges_join_nodes(graph_edges(copy), graph_nodes(copy).len()),
{
    graph.clone()
}

/// `Graph::node_count`: the number of nodes.
#[verifier::external_body]
pub(crate) fn node_count(graph: &SimilarityGraph) -> (count: usize)
    ensures
        count == graph_nodes(*graph).len(),
{
    graph.node_count()
}

/// `Graph::edge_count`: the number of edges.
#[verifier::external_body]
pub(crate) fn edge_count(graph: &SimilarityGraph) -> (count: usize)
    ensures
        count == graph_edges(*graph).len(),
{
    graph.edge_count()
}

/// `Graph::add_node`: puts a node with the given record behind the others and
/// returns its index; the edges stay as they are. It panics on a full graph,
/// which `requires` leaves out.
#[verifier::external_body]
pub(crate) fn add_node(graph: &mut SimilarityGraph, patient: Patient) -> (index: usize)
    requires
        graph_nodes(*old(graph)).len() < GRAPH_CAPACITY,
    ensures
        graph_nodes(*final(graph)) == graph_nodes(*old(graph)).push(patient),
        graph_edges(*final(graph)) == graph_edges(*old(graph)),
        index == graph_nodes(*old(graph)).len(),
{
    graph.add_node(patient).index()
}

/// `Graph::add_edge`: puts an edge between nodes `a` and `b` behind the others;
/// the nodes stay as they are. It panics where `a` or `b` is no node of the
/// graph or the graph is full of edges, which `requires` leaves out.
#[verifier::external_body]
pub(crate) fn add_edge(graph: &mut SimilarityGraph, a: usize, b: usize, weight: u32)
    requires
        a < graph_nodes(*old(graph)).len(),
        b < graph_nodes(*old(graph)).len(),
        graph_edges(*old(graph)).len() < GRAPH_CAPACITY,
    ensures
        graph_nodes(*final(graph)) == graph_nodes(*old(graph)),
        graph_edges(*final(graph)) == graph_edges(*old(graph)).push(
            (Edge { source: a, target: b, weight }),
        ),
{
    graph.add_edge(NodeIndex::new(a), NodeIndex::new(b), weight);
}

/// `Graph::node_weight`: the record at node `a`.
#[verifier::external_body]
pub(crate) fn node_weight(graph: &SimilarityGraph, a: usize) -> (record: Option<&Patient>)
    requires
        a < graph_nodes(*graph).len(),
    ensures
        record == Some(&graph_nodes(*graph)[a as int]),
{
    graph.node_weight(NodeIndex::new(a))
}

/// `Graph::neighbors`: for an undirected graph, the other end of each edge from
/// or to node `a`, in no order that `petgraph` promises.
#[verifier::external_body]
pub(crate) fn neighbors(graph: &SimilarityGraph, a: usize) -> (found: Vec<usize>)
    requires
        a < graph_nodes(*graph).len(),
    ensures
        found@.to_multiset() == adjacent(graph_edges(*graph), a),
{
    graph.neighbors(NodeIndex::new(a)).map(|n| n.index()).collect()
}

} // verus!
