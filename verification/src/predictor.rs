//! Estimating the risk of a new record from the records that resemble it.
//!
//! The candidate is put into a copy of the graph as one more node, joined to
//! every node whose record scores at least the threshold against it. The
//! estimate is the mean outcome of those neighbours.

use crate::graph_ops::{
    add_edge, add_node, adjacent, clone_graph, edge_count, edges_join_nodes, graph_edges,
    graph_nodes, neighbors, node_count, node_weight, Edge, SimilarityGraph, GRAPH_CAPACITY,
};
use crate::patient::Patient;
use crate::similarity::{calculate_similarity, similarity};
use vstd::multiset::Multiset;
use vstd::prelude::*;
use vstd::seq_lib::{to_multiset_build, to_multiset_contains, to_multiset_len, to_multiset_remove};

verus! {

/// A risk estimate as an exact fraction: the outcomes of the candidate's
/// neighbours added up, over the number of neighbours. The estimate is their
/// quotient, the mean outcome. Without neighbours both are zero, and the
/// estimate is zero: no sign of risk.
#[derive(Clone, Copy, Debug, PartialEq, Eq)]
pub struct RiskEstimate {
    /// The sum of the outcome field over the neighbours.
    pub outcome_sum: u64,
    /// The number of neighbours.
    pub neighbors: u64,
}

impl RiskEstimate {
    /// Whether the estimate is at least one half: there are neighbours, and
    /// their outcomes add up to at least half their number.
    pub open spec fn reaches_half(self) -> bool {
        self.neighbors > 0 && 2 * self.outcome_sum >= self.neighbors
    }

    /// The label that the estimate stands for: 1 where it is at least one half,
    /// 0 where it is less, and 0 without neighbours.
    pub fn label(&self) -> (label: u8)
        ensures
            label == if self.reaches_half() {
                1u8
            } else {
                0u8
            },
    {
        if self.neighbors > 0 && 2 * (self.outcome_sum as u128) >= self.neighbors as u128 {
            1
        } else {
            0
        }
    }
}

/// The indices, in rising order, of those among the first `upto` nodes whose
/// record scores at least `threshold` against the candidate.
pub open spec fn similar_nodes(
    nodes: Seq<Patient>,
    candidate: Patient,
    threshold: u32,
    upto: int,
) -> Seq<usize>
    decreases upto,
{
    if upto <= 0 {
        Seq::empty()
    } else {
        let before = similar_nodes(nodes, candidate, threshold, upto - 1);
        if similarity(nodes[upto - 1], candidate) >= threshold {
            before.push((upto - 1) as usize)
        } else {
            before
        }
    }
}

/// The outcome field added up over the nodes that `chosen` lists.
pub open spec fn outcome_total(nodes: Seq<Patient>, chosen: Seq<usize>) -> nat
    decreases chosen.len(),
{
    if chosen.len() == 0 {
        0
    } else {
        outcome_total(nodes, chosen.drop_last())
            + nodes[chosen.last() as int].HadHeartAttack_INT as nat
    }
}

/// The number of records among `nodes` that score at least `threshold` against
/// the candidate: the number of neighbours that it gets.
pub open spec fn neighbor_count(nodes: Seq<Patient>, candidate: Patient, threshold: u32) -> nat {
    similar_nodes(nodes, candidate, threshold, nodes.len() as int).len()
}

/// The outcome field added up over the records among `nodes` that score at
/// least `threshold` against the candidate.
pub open spec fn risk_sum(nodes: Seq<Patient>, candidate: Patient, threshold: u32) -> nat {
    outcome_total(nodes, similar_nodes(nodes, candidate, threshold, nodes.len() as int))
}

/// Whether `estimate` is the estimate for the candidate against the records
/// `nodes`: the summed outcome of the records that score at least `threshold`
/// against it, over their number.
pub open spec fn is_estimate(
    estimate: RiskEstimate,
    nodes: Seq<Patient>,
    candidate: Patient,
    threshold: u32,
) -> bool {
    &&& estimate.neighbors == neighbor_count(nodes, candidate, threshold)
    &&& estimate.outcome_sum == risk_sum(nodes, candidate, threshold)
}

/// Whether a copy of the graph can take the candidate as one more node, with an
/// edge to each node that resembles it.
pub open spec fn can_extend(graph: SimilarityGraph, candidate: Patient, threshold: u32) -> bool {
    &&& graph_nodes(graph).len() < GRAPH_CAPACITY
    &&& graph_edges(graph).len() + neighbor_count(graph_nodes(graph), candidate, threshold)
        <= GRAPH_CAPACITY
}

/// Whether a copy of the graph can take any candidate at any threshold: one
/// more node, and an edge to every node there is.
pub open spec fn has_room(graph: SimilarityGraph) -> bool {
    &&& graph_nodes(graph).len() < GRAPH_CAPACITY
    &&& graph_edges(graph).len() + graph_nodes(graph).len() <= GRAPH_CAPACITY
}

/// The label predicted for a candidate against the records `nodes`: 1 where
/// the mean outcome of its neighbours is at least one half, else 0.
pub open spec fn predicted_label(nodes: Seq<Patient>, candidate: Patient, threshold: u32) -> u8 {
    if neighbor_count(nodes, candidate, threshold) > 0 && 2 * risk_sum(nodes, candidate, threshold)
        >= neighbor_count(nodes, candidate, threshold) {
        1
    } else {
        0
    }
}

/// The number of records among `tests` whose predicted label is their own
/// outcome.
pub open spec fn correct_among(nodes: Seq<Patient>, tests: Seq<Patient>, threshold: u32) -> nat
    decreases tests.len(),
{
    if tests.len() == 0 {
        0
    } else {
        let before = correct_among(nodes, tests.drop_last(), threshold);
        if predicted_label(nodes, tests.last(), threshold) == tests.last().HadHeartAttack_INT {
            before + 1
        } else {
            before
        }
    }
}

/// Estimates the risk of `new_patient` from the records in `graph`.
///
/// A copy of the graph is extended by a node for the candidate and by an edge
/// to each node whose record scores at least `threshold` against it; the
/// estimate is taken over the neighbours of that node. `graph` itself is left
/// as it is. The result depends on the records at the nodes alone, not on the
/// edges that the graph holds.
///
/// The copy must have room for the new node and its edges, which `requires`
/// asks for: a graph holds no more than [`GRAPH_CAPACITY`] of either.
/// [`predict_risk_checked`] asks nothing and looks for the room itself.
pub fn predict_risk(
    graph: &SimilarityGraph,
    new_patient: Patient,
    threshold: u32,
) -> (estimate: RiskEstimate)
    requires
        can_extend(*graph, new_patient, threshold),
    ensures
        is_estimate(estimate, graph_nodes(*graph), new_patient, threshold),
        estimate.neighbors == 0 ==> estimate.outcome_sum == 0,
{
    let ghost nodes = graph_nodes(*graph);
    let ghost edges = graph_edges(*graph);
    let mut extended = clone_graph(graph);
    let new_node = add_node(&mut extended, new_patient);
    let count = node_count(&extended);
    let mut i: usize = 0;
    while i < count - 1
        invariant
            i <= count - 1 == nodes.len() < GRAPH_CAPACITY,
            new_node == nodes.len(),
            graph_nodes(extended) == nodes.push(new_patient),
            graph_edges(extended) == edges + candidate_edges(
                nodes,
                new_patient,
                threshold,
                i as int,
            ),
            edges.len() + similar_nodes(nodes, new_patient, threshold, nodes.len() as int).len()
                <= GRAPH_CAPACITY,
        decreases count - i,
    {
        let existing = node_weight(&extended, i).unwrap();
        let score = calculate_similarity(existing, &new_patient);
        if score >= threshold {
            proof {
                lemma_similar_nodes(nodes, new_patient, threshold, i as int);
                lemma_similar_nodes_grow(
                    nodes,
                    new_patient,
                    threshold,
                    i + 1,
                    nodes.len() as int,
                );
            }
            add_edge(&mut extended, new_node, i, score);
        }
        i += 1;
    }
    let found = neighbors(&extended, new_node);
    let ghost chosen = similar_nodes(nodes, new_patient, threshold, nodes.len() as int);
    proof {
        lemma_similar_nodes(nodes, new_patient, threshold, nodes.len() as int);
        lemma_adjacent_concat(
            edges,
            candidate_edges(nodes, new_patient, threshold, nodes.len() as int),
            new_node,
        );
        lemma_adjacent_outside(edges, new_node);
        assert(found@.to_multiset() =~= chosen.to_multiset());
        to_multiset_len(found@);
        to_multiset_len(chosen);
        lemma_total_of_permutation(nodes, found@, chosen);
        assert forall|k: int| 0 <= k < found@.len() implies #[trigger] found@[k] < nodes.len() by {
            to_multiset_contains(found@, found@[k]);
            to_multiset_contains(chosen, found@[k]);
        }
    }
    let mut risk_sum: u64 = 0;
    let mut k: usize = 0;
    while k < found.len()
        invariant
            k <= found@.len() <= nodes.len() < GRAPH_CAPACITY,
            graph_nodes(extended) == nodes.push(new_patient),
            forall|l: int| 0 <= l < found@.len() ==> #[trigger] found@[l] < nodes.len(),
            risk_sum == outcome_total(nodes, found@.take(k as int)),
            risk_sum <= 255 * k,
        decreases found@.len() - k,
    {
        let neighbor = node_weight(&extended, found[k]).unwrap();
        assert(found@.take(k + 1).drop_last() == found@.take(k as int));
        risk_sum += neighbor.HadHeartAttack_INT as u64;
        k += 1;
    }
    assert(found@.take(found@.len() as int) == found@);
    RiskEstimate { outcome_sum: risk_sum, neighbors: found.len() as u64 }
}

/// [`predict_risk`] for a graph of which nothing is known: the estimate where a
/// copy of the graph has room for one more node and an edge to every node there
/// is, and `None` where it has not.
pub fn predict_risk_checked(
    graph: &SimilarityGraph,
    new_patient: Patient,
    threshold: u32,
) -> (found: Option<RiskEstimate>)
    ensures
        found is Some <==> has_room(*graph),
        found matches Some(estimate) ==> is_estimate(
            estimate,
            graph_nodes(*graph),
            new_patient,
            threshold,
        ),
{
    let nodes = node_count(graph);
    let edges = edge_count(graph);
    if nodes < GRAPH_CAPACITY && edges <= GRAPH_CAPACITY - nodes {
        proof {
            lemma_room_for_all(*graph, new_patient, threshold);
        }
        Some(predict_risk(graph, new_patient, threshold))
    } else {
        None
    }
}

/// Predicts a label for each test record from the graph and counts the records
/// whose label is their own outcome. `None` where a copy of the graph has no
/// room for one more node and an edge to every node there is.
pub fn count_correct(
    graph: &SimilarityGraph,
    test_data: &[Patient],
    threshold: u32,
) -> (correct: Option<usize>)
    ensures
        correct is Some <==> has_room(*graph),
        correct matches Some(count) ==> count == correct_among(
            graph_nodes(*graph),
            test_data@,
            threshold,
        ) && count <= test_data@.len(),
{
    let nodes = node_count(graph);
    let edges = edge_count(graph);
    if nodes >= GRAPH_CAPACITY || edges > GRAPH_CAPACITY - nodes {
        return None;
    }
    let mut correct: usize = 0;
    let mut i: usize = 0;
    while i < test_data.len()
        invariant
            i <= test_data@.len(),
            has_room(*graph),
            correct == correct_among(graph_nodes(*graph), test_data@.take(i as int), threshold),
            correct <= i,
        decreases test_data@.len() - i,
    {
        proof {
            lemma_room_for_all(*graph, test_data@[i as int], threshold);
        }
        let estimate = predict_risk(graph, test_data[i], threshold);
        assert(test_data@.take(i + 1).drop_last() == test_data@.take(i as int));
        if estimate.label() == test_data[i].HadHeartAttack_INT {
            correct += 1;
        }
        i += 1;
    }
    assert(test_data@.take(test_data@.len() as int) == test_data@);
    Some(correct)
}

/// Which nodes become the neighbours of a candidate: those, and only those,
/// whose record scores at least the threshold against it, each once.
pub proof fn lemma_neighbors(nodes: Seq<Patient>, candidate: Patient, threshold: u32)
    requires
        nodes.len() <= usize::MAX,
    ensures
        forall|i: int|
            0 <= i < nodes.len() ==> (similar_nodes(
                nodes,
                candidate,
                threshold,
                nodes.len() as int,
            ).contains(i as usize) <==> #[trigger] similarity(nodes[i], candidate) >= threshold),
        forall|k: int|
            0 <= k < neighbor_count(nodes, candidate, threshold) ==> #[trigger] similar_nodes(
                nodes,
                candidate,
                threshold,
                nodes.len() as int,
            )[k] < nodes.len(),
        similar_nodes(nodes, candidate, threshold, nodes.len() as int).no_duplicates(),
        neighbor_count(nodes, candidate, threshold) <= nodes.len(),
{
    lemma_similar_nodes_upto(nodes, candidate, threshold, nodes.len() as int);
    lemma_similar_nodes(nodes, candidate, threshold, nodes.len() as int);
}

/// A candidate that no record resembles has no neighbours, and its estimate is
/// zero over zero: no risk.
pub proof fn lemma_no_neighbor_default(nodes: Seq<Patient>, candidate: Patient, threshold: u32)
    requires
        forall|i: int|
            0 <= i < nodes.len() ==> #[trigger] similarity(nodes[i], candidate) < threshold,
    ensures
        neighbor_count(nodes, candidate, threshold) == 0,
        risk_sum(nodes, candidate, threshold) == 0,
{
    lemma_none_similar(nodes, candidate, threshold, nodes.len() as int);
}

/// With outcomes that are 0 or 1, the summed outcome is no more than the number
/// of neighbours: the estimate is a fraction between zero and one.
pub proof fn lemma_estimate_is_fraction(nodes: Seq<Patient>, candidate: Patient, threshold: u32)
    requires
        nodes.len() <= usize::MAX,
        forall|i: int| 0 <= i < nodes.len() ==> (#[trigger] nodes[i]).HadHeartAttack_INT <= 1,
    ensures
        risk_sum(nodes, candidate, threshold) <= neighbor_count(nodes, candidate, threshold),
{
    lemma_neighbors(nodes, candidate, threshold);
    lemma_total_bounded(nodes, similar_nodes(nodes, candidate, threshold, nodes.len() as int));
}

/// Two estimates for the same candidate against the same records at the same
/// threshold are the same: an estimate depends on nothing else.
pub proof fn lemma_estimate_unique(
    nodes: Seq<Patient>,
    candidate: Patient,
    threshold: u32,
    first: RiskEstimate,
    second: RiskEstimate,
)
    requires
        is_estimate(first, nodes, candidate, threshold),
        is_estimate(second, nodes, candidate, threshold),
    ensures
        first == second,
{
}

/// A graph with room for a node and an edge to every node has room for every
/// candidate.
pub proof fn lemma_room_for_all(graph: SimilarityGraph, candidate: Patient, threshold: u32)
    requires
        has_room(graph),
    ensures
        can_extend(graph, candidate, threshold),
{
    lemma_neighbors(graph_nodes(graph), candidate, threshold);
}

/// The edges that join a candidate, as node `nodes.len()`, to those among the
/// first `upto` nodes that resemble it.
spec fn candidate_edges(
    nodes: Seq<Patient>,
    candidate: Patient,
    threshold: u32,
    upto: int,
) -> Seq<Edge>
    decreases upto,
{
    if upto <= 0 {
        Seq::empty()
    } else {
        let before = candidate_edges(nodes, candidate, threshold, upto - 1);
        if similarity(nodes[upto - 1], candidate) >= threshold {
            before.push(
                Edge {
                    source: nodes.len() as usize,
                    target: (upto - 1) as usize,
                    weight: similarity(nodes[upto - 1], candidate) as u32,
                },
            )
        } else {
            before
        }
    }
}

/// The similar nodes are as many as the candidate's edges, lie among the nodes
/// looked at, and are what those edges join the candidate to.
proof fn lemma_similar_nodes(nodes: Seq<Patient>, candidate: Patient, threshold: u32, upto: int)
    requires
        0 <= upto <= nodes.len() <= usize::MAX,
    ensures
        similar_nodes(nodes, candidate, threshold, upto).len() == candidate_edges(
            nodes,
            candidate,
            threshold,
            upto,
        ).len(),
        similar_nodes(nodes, candidate, threshold, upto).len() <= upto,
        forall|k: int|
            0 <= k < similar_nodes(nodes, candidate, threshold, upto).len()
                ==> #[trigger] similar_nodes(nodes, candidate, threshold, upto)[k] < upto,
        adjacent(candidate_edges(nodes, candidate, threshold, upto), nodes.len() as usize)
            == similar_nodes(nodes, candidate, threshold, upto).to_multiset(),
    decreases upto,
{
    if upto > 0 {
        lemma_similar_nodes(nodes, candidate, threshold, upto - 1);
        let before = similar_nodes(nodes, candidate, threshold, upto - 1);
        let edges = candidate_edges(nodes, candidate, threshold, upto);
        if similarity(nodes[upto - 1], candidate) >= threshold {
            to_multiset_build(before, (upto - 1) as usize);
            assert(edges.drop_last() == candidate_edges(nodes, candidate, threshold, upto - 1));
        }
    } else {
        to_multiset_len(Seq::<usize>::empty());
    }
}

/// More nodes give no fewer similar ones.
proof fn lemma_similar_nodes_grow(
    nodes: Seq<Patient>,
    candidate: Patient,
    threshold: u32,
    upto: int,
    further: int,
)
    requires
        upto <= further,
    ensures
        similar_nodes(nodes, candidate, threshold, upto).len() <= similar_nodes(
            nodes,
            candidate,
            threshold,
            further,
        ).len(),
    decreases further - upto,
{
    if upto < further {
        lemma_similar_nodes_grow(nodes, candidate, threshold, upto, further - 1);
    }
}

/// The similar nodes come in rising order, and are those that score at least
/// the threshold.
proof fn lemma_similar_nodes_upto(
    nodes: Seq<Patient>,
    candidate: Patient,
    threshold: u32,
    upto: int,
)
    requires
        0 <= upto <= nodes.len() <= usize::MAX,
    ensures
        forall|k: int, l: int|
            0 <= k < l < similar_nodes(nodes, candidate, threshold, upto).len()
                ==> #[trigger] similar_nodes(nodes, candidate, threshold, upto)[k]
                < #[trigger] similar_nodes(nodes, candidate, threshold, upto)[l],
        forall|i: int|
            0 <= i < upto ==> (similar_nodes(nodes, candidate, threshold, upto).contains(
                i as usize,
            ) <==> #[trigger] similarity(nodes[i], candidate) >= threshold),
    decreases upto,
{
    if upto > 0 {
        lemma_similar_nodes_upto(nodes, candidate, threshold, upto - 1);
        lemma_similar_nodes(nodes, candidate, threshold, upto - 1);
        let before = similar_nodes(nodes, candidate, threshold, upto - 1);
        let now = similar_nodes(nodes, candidate, threshold, upto);
        assert forall|i: int| 0 <= i < upto implies (now.contains(i as usize)
            <==> #[trigger] similarity(nodes[i], candidate) >= threshold) by {
            if similarity(nodes[upto - 1], candidate) >= threshold {
                assert(now[now.len() - 1] == (upto - 1) as usize);
                if i < upto - 1 && before.contains(i as usize) {
                    let k = choose|k: int| 0 <= k < before.len() && before[k] == i as usize;
                    assert(now[k] == i as usize);
                }
            }
        }
    }
}

/// Where no record resembles the candidate, no node is similar.
proof fn lemma_none_similar(nodes: Seq<Patient>, candidate: Patient, threshold: u32, upto: int)
    requires
        upto <= nodes.len(),
        forall|i: int|
            0 <= i < nodes.len() ==> #[trigger] similarity(nodes[i], candidate) < threshold,
    ensures
        similar_nodes(nodes, candidate, threshold, upto) == Seq::<usize>::empty(),
    decreases upto,
{
    if upto > 0 {
        lemma_none_similar(nodes, candidate, threshold, upto - 1);
    }
}

/// Edges among the first `count` nodes do not reach node `count`.
proof fn lemma_adjacent_outside(edges: Seq<Edge>, count: usize)
    requires
        edges_join_nodes(edges, count as nat),
    ensures
        adjacent(edges, count) == Multiset::<usize>::empty(),
    decreases edges.len(),
{
    if edges.len() > 0 {
        lemma_adjacent_outside(edges.drop_last(), count);
    }
}

/// The neighbours along two runs of edges are those along the first and those
/// along the second.
proof fn lemma_adjacent_concat(first: Seq<Edge>, second: Seq<Edge>, a: usize)
    ensures
        adjacent(first + second, a) == adjacent(first, a).add(adjacent(second, a)),
    decreases second.len(),
{
    if second.len() > 0 {
        lemma_adjacent_concat(first, second.drop_last(), a);
        assert((first + second).drop_last() == first + second.drop_last());
        let rest = adjacent(first, a).add(adjacent(second.drop_last(), a));
        let e = second.last();
        assert(rest.insert(e.target) =~= adjacent(first, a).add(
            adjacent(second.drop_last(), a).insert(e.target),
        ));
        assert(rest.insert(e.source) =~= adjacent(first, a).add(
            adjacent(second.drop_last(), a).insert(e.source),
        ));
    }
}

/// Taking one entry out of a list takes its outcome out of the total.
proof fn lemma_total_remove(nodes: Seq<Patient>, chosen: Seq<usize>, at: int)
    requires
        0 <= at < chosen.len(),
    ensures
        outcome_total(nodes, chosen) == outcome_total(nodes, chosen.remove(at))
            + nodes[chosen[at] as int].HadHeartAttack_INT,
    decreases chosen.len(),
{
    if at < chosen.len() - 1 {
        lemma_total_remove(nodes, chosen.drop_last(), at);
        assert(chosen.remove(at).drop_last() == chosen.drop_last().remove(at));
    }
}

/// The total does not depend on the order of the list: two lists with the same
/// entries, each as often in the one as in the other, have the same total.
proof fn lemma_total_of_permutation(nodes: Seq<Patient>, a: Seq<usize>, b: Seq<usize>)
    requires
        a.to_multiset() == b.to_multiset(),
    ensures
        outcome_total(nodes, a) == outcome_total(nodes, b),
    decreases a.len(),
{
    to_multiset_len(a);
    to_multiset_len(b);
    if a.len() > 0 {
        let x = a.last();
        to_multiset_contains(a, x);
        to_multiset_contains(b, x);
        let at = choose|at: int| 0 <= at < b.len() && b[at] == x;
        to_multiset_remove(a, a.len() - 1);
        to_multiset_remove(b, at);
        lemma_total_of_permutation(nodes, a.drop_last(), b.remove(at));
        lemma_total_remove(nodes, b, at);
    }
}

/// Outcomes that are 0 or 1 add up to no more than their number.
proof fn lemma_total_bounded(nodes: Seq<Patient>, chosen: Seq<usize>)
    requires
        forall|i: int| 0 <= i < nodes.len() ==> (#[trigger] nodes[i]).HadHeartAttack_INT <= 1,
        forall|k: int| 0 <= k < chosen.len() ==> #[trigger] chosen[k] < nodes.len(),
    ensures
        outcome_total(nodes, chosen) <= chosen.len(),
    decreases chosen.len(),
{
    if chosen.len() > 0 {
        lemma_total_bounded(nodes, chosen.drop_last());
    }
}

} // verus!
