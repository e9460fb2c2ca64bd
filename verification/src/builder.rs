//! Building the similarity graph of a set of records.
//!
//! Each record becomes a node, in the order given. Two nodes are joined by an
//! edge exactly when the similarity score of their records reaches the
//! threshold, and the edge carries that score.

use crate::graph_ops::{
    add_edge, add_node, graph_edges, graph_nodes, new_graph, Edge, SimilarityGraph, GRAPH_CAPACITY,
};
use crate::patient::Patient;
use crate::similarity::{calculate_similarity, similarity, MAX_SCORE};
use vstd::prelude::*;

verus! {

/// The edge between records `i` and `j`, weighted with their similarity score.
pub open spec fn pair_edge(records: Seq<Patient>, i: int, j: int) -> Edge {
    Edge {
        source: i as usize,
        target: j as usize,
        weight: similarity(records[i], records[j]) as u32,
    }
}

/// The edges from record `i` to the records behind it and before `end` whose
/// score with `i` reaches the threshold, by rising index of the other record.
pub open spec fn row_edges(records: Seq<Patient>, threshold: u32, i: int, end: int) -> Seq<Edge>
    decreases end - i,
{
    if end <= i + 1 {
        Seq::empty()
    } else {
        let before = row_edges(records, threshold, i, end - 1);
        if similarity(records[i], records[end - 1]) >= threshold {
            before.push(pair_edge(records, i, end - 1))
        } else {
            before
        }
    }
}

/// The edges whose lower end is one of the first `rows` records: row after row.
pub open spec fn edges_of_rows(records: Seq<Patient>, threshold: u32, rows: int) -> Seq<Edge>
    decreases rows,
{
    if rows <= 0 {
        Seq::empty()
    } else {
        edges_of_rows(records, threshold, rows - 1) + row_edges(
            records,
            threshold,
            rows - 1,
            records.len() as int,
        )
    }
}

/// The edges of the similarity graph of `records`: one for each pair `i < j`
/// whose score reaches the threshold, ordered by `i` and then by `j`.
pub open spec fn similarity_edges(records: Seq<Patient>, threshold: u32) -> Seq<Edge> {
    edges_of_rows(records, threshold, records.len() as int)
}

/// Whether `e` joins two distinct records, the lower index first, and carries
/// their similarity score, which reaches the threshold.
pub open spec fn is_similarity_edge(records: Seq<Patient>, threshold: u32, e: Edge) -> bool {
    &&& e.source < e.target < records.len()
    &&& e.weight == similarity(records[e.source as int], records[e.target as int])
    &&& e.weight >= threshold
}

/// Whether `a` comes before `b` in the order by lower end, then by upper end.
pub open spec fn edge_before(a: Edge, b: Edge) -> bool {
    a.source < b.source || (a.source == b.source && a.target < b.target)
}

/// Builds the similarity graph of `patients`: one node for each record, in the
/// order given, and one edge for each pair of records whose similarity score is
/// at least `threshold`, weighted with that score.
///
/// Every pair is scored, so the work grows with the square of the number of
/// records. A threshold above the highest score gives a graph without edges.
/// The graph's indices are 32-bit: `requires` asks that the nodes and the edges
/// fit (see [`lemma_edges_fit`] for a bound on the number of records that is
/// enough).
pub fn build_graph(patients: &[Patient], threshold: u32) -> (graph: SimilarityGraph)
    requires
        patients@.len() <= GRAPH_CAPACITY,
        similarity_edges(patients@, threshold).len() <= GRAPH_CAPACITY,
    ensures
        graph_nodes(graph) == patients@,
        graph_edges(graph) == similarity_edges(patients@, threshold),
{
    let n = patients.len();
    let mut graph = new_graph();
    let mut added: usize = 0;
    while added < n
        invariant
            added <= n == patients@.len() <= GRAPH_CAPACITY,
            graph_nodes(graph) == patients@.take(added as int),
            graph_edges(graph) == Seq::<Edge>::empty(),
        decreases n - added,
    {
        add_node(&mut graph, patients[added]);
        assert(patients@.take(added as int).push(patients@[added as int]) == patients@.take(
            added + 1,
        ));
        added += 1;
    }
    let mut i: usize = 0;
    while i < n
        invariant
            i <= n == patients@.len(),
            similarity_edges(patients@, threshold).len() <= GRAPH_CAPACITY,
            graph_nodes(graph) == patients@,
            graph_edges(graph) == edges_of_rows(patients@, threshold, i as int),
        decreases n - i,
    {
        let mut j: usize = i + 1;
        while j < n
            invariant
                i < j <= n == patients@.len(),
                similarity_edges(patients@, threshold).len() <= GRAPH_CAPACITY,
                graph_nodes(graph) == patients@,
                graph_edges(graph) == edges_of_rows(patients@, threshold, i as int) + row_edges(
                    patients@,
                    threshold,
                    i as int,
                    j as int,
                ),
            decreases n - j,
        {
            let score = calculate_similarity(&patients[i], &patients[j]);
            if score >= threshold {
                proof {
                    lemma_row_grows(patients@, threshold, i as int, j + 1, n as int);
                    lemma_rows_grow(patients@, threshold, i + 1, n as int);
                }
                add_edge(&mut graph, i, j, score);
            }
            j += 1;
        }
        i += 1;
    }
    graph
}

/// What the edges of a similarity graph are. Each one joins two distinct
/// records, the lower index first, and carries their score, which reaches the
/// threshold; so no edge joins a node to itself. They are strictly ordered by
/// their two ends, so no pair of nodes has more than one edge. And every pair
/// of records whose score reaches the threshold has its edge.
pub proof fn lemma_similarity_edges(records: Seq<Patient>, threshold: u32)
    requires
        records.len() <= usize::MAX,
    ensures
        forall|k: int|
            0 <= k < similarity_edges(records, threshold).len() ==> is_similarity_edge(
                records,
                threshold,
                #[trigger] similarity_edges(records, threshold)[k],
            ),
        forall|k: int, l: int|
            0 <= k < l < similarity_edges(records, threshold).len() ==> edge_before(
                #[trigger] similarity_edges(records, threshold)[k],
                #[trigger] similarity_edges(records, threshold)[l],
            ),
        forall|i: int, j: int|
            0 <= i < j < records.len() && similarity(records[i], records[j]) >= threshold
                ==> similarity_edges(records, threshold).contains(
                #[trigger] pair_edge(records, i, j),
            ),
{
    lemma_edges_of_rows(records, threshold, records.len() as int);
}

/// Raising the threshold never adds an edge: the graph of the same records at
/// a higher threshold has no more edges than at a lower one.
pub proof fn lemma_threshold_monotone(records: Seq<Patient>, lower: u32, higher: u32)
    requires
        lower <= higher,
    ensures
        similarity_edges(records, higher).len() <= similarity_edges(records, lower).len(),
{
    lemma_rows_thin_out(records, lower, higher, records.len() as int);
}

/// A threshold above the highest score leaves the graph without edges.
pub proof fn lemma_unreachable_threshold(records: Seq<Patient>, threshold: u32)
    requires
        threshold > MAX_SCORE,
    ensures
        similarity_edges(records, threshold) == Seq::<Edge>::empty(),
{
    lemma_rows_empty(records, threshold, records.len() as int);
}

/// There are no more edges than pairs of records: `n * (n - 1) / 2` for `n`
/// records. Up to 92682 records the edges fit in a graph whatever the threshold.
pub proof fn lemma_edges_fit(records: Seq<Patient>, threshold: u32)
    ensures
        2 * similarity_edges(records, threshold).len() <= records.len() * (records.len() - 1),
        records.len() <= 92682 ==> similarity_edges(records, threshold).len() <= GRAPH_CAPACITY,
{
    let n = records.len() as int;
    lemma_rows_fit(records, threshold, n);
    if n <= 92682 {
        assert(n * (n - 1) <= 92682 * 92681) by (nonlinear_arith)
            requires
                0 <= n <= 92682,
        ;
    }
}

/// What [`lemma_similarity_edges`] says of the graph, of one row.
proof fn lemma_row_edges(records: Seq<Patient>, threshold: u32, i: int, end: int)
    requires
        0 <= i < end <= records.len() <= usize::MAX,
    ensures
        forall|k: int|
            0 <= k < row_edges(records, threshold, i, end).len() ==> {
                let e = #[trigger] row_edges(records, threshold, i, end)[k];
                is_similarity_edge(records, threshold, e) && e.source == i && e.target < end
            },
        forall|k: int, l: int|
            0 <= k < l < row_edges(records, threshold, i, end).len() ==> (#[trigger] row_edges(
                records,
                threshold,
                i,
                end,
            )[k]).target < (#[trigger] row_edges(records, threshold, i, end)[l]).target,
        forall|j: int|
            i < j < end && similarity(records[i], records[j]) >= threshold ==> row_edges(
                records,
                threshold,
                i,
                end,
            ).contains(#[trigger] pair_edge(records, i, j)),
    decreases end,
{
    if end > i + 1 {
        lemma_row_edges(records, threshold, i, end - 1);
        let before = row_edges(records, threshold, i, end - 1);
        let row = row_edges(records, threshold, i, end);
        assert forall|j: int|
            i < j < end && similarity(records[i], records[j]) >= threshold implies row.contains(
            #[trigger] pair_edge(records, i, j),
        ) by {
            if j < end - 1 {
                let k = choose|k: int|
                    0 <= k < before.len() && before[k] == pair_edge(records, i, j);
                assert(row[k] == pair_edge(records, i, j));
            } else {
                assert(row[row.len() - 1] == pair_edge(records, i, j));
            }
        }
    }
}

/// What [`lemma_similarity_edges`] says of the graph, of its first rows.
proof fn lemma_edges_of_rows(records: Seq<Patient>, threshold: u32, rows: int)
    requires
        0 <= rows <= records.len() <= usize::MAX,
    ensures
        forall|k: int|
            0 <= k < edges_of_rows(records, threshold, rows).len() ==> {
                let e = #[trigger] edges_of_rows(records, threshold, rows)[k];
                is_similarity_edge(records, threshold, e) && e.source < rows
            },
        forall|k: int, l: int|
            0 <= k < l < edges_of_rows(records, threshold, rows).len() ==> edge_before(
                #[trigger] edges_of_rows(records, threshold, rows)[k],
                #[trigger] edges_of_rows(records, threshold, rows)[l],
            ),
        forall|i: int, j: int|
            0 <= i < rows && i < j < records.len() && similarity(records[i], records[j])
                >= threshold ==> edges_of_rows(records, threshold, rows).contains(
                #[trigger] pair_edge(records, i, j),
            ),
    decreases rows,
{
    if rows > 0 {
        let n = records.len() as int;
        lemma_edges_of_rows(records, threshold, rows - 1);
        lemma_row_edges(records, threshold, rows - 1, n);
        let above = edges_of_rows(records, threshold, rows - 1);
        let row = row_edges(records, threshold, rows - 1, n);
        let all = edges_of_rows(records, threshold, rows);
        assert forall|i: int, j: int|
            0 <= i < rows && i < j < n && similarity(records[i], records[j])
                >= threshold implies all.contains(#[trigger] pair_edge(records, i, j)) by {
            if i < rows - 1 {
                let k = choose|k: int| 0 <= k < above.len() && above[k] == pair_edge(records, i, j);
                assert(all[k] == pair_edge(records, i, j));
            } else {
                let k = choose|k: int| 0 <= k < row.len() && row[k] == pair_edge(records, i, j);
                assert(all[above.len() + k] == pair_edge(records, i, j));
            }
        }
    }
}

/// A row holds no fewer edges when it is taken further.
proof fn lemma_row_grows(records: Seq<Patient>, threshold: u32, i: int, end: int, further: int)
    requires
        end <= further,
    ensures
        row_edges(records, threshold, i, end).len() <= row_edges(
            records,
            threshold,
            i,
            further,
        ).len(),
    decreases further - end,
{
    if end < further {
        lemma_row_grows(records, threshold, i, end, further - 1);
    }
}

/// More rows hold no fewer edges.
proof fn lemma_rows_grow(records: Seq<Patient>, threshold: u32, rows: int, more: int)
    requires
        rows <= more,
    ensures
        edges_of_rows(records, threshold, rows).len() <= edges_of_rows(
            records,
            threshold,
            more,
        ).len(),
    decreases more - rows,
{
    if rows < more {
        lemma_rows_grow(records, threshold, rows, more - 1);
    }
}

/// A row has no more edges at a higher threshold.
proof fn lemma_row_thins_out(records: Seq<Patient>, lower: u32, higher: u32, i: int, end: int)
    requires
        lower <= higher,
    ensures
        row_edges(records, higher, i, end).len() <= row_edges(records, lower, i, end).len(),
    decreases end - i,
{
    if end > i + 1 {
        lemma_row_thins_out(records, lower, higher, i, end - 1);
    }
}

/// The first rows have no more edges at a higher threshold.
proof fn lemma_rows_thin_out(records: Seq<Patient>, lower: u32, higher: u32, rows: int)
    requires
        lower <= higher,
    ensures
        edges_of_rows(records, higher, rows).len() <= edges_of_rows(records, lower, rows).len(),
    decreases rows,
{
    if rows > 0 {
        lemma_rows_thin_out(records, lower, higher, rows - 1);
        lemma_row_thins_out(records, lower, higher, rows - 1, records.len() as int);
    }
}

/// No row has an edge at a threshold above the highest score.
proof fn lemma_row_empty(records: Seq<Patient>, threshold: u32, i: int, end: int)
    requires
        threshold > MAX_SCORE,
    ensures
        row_edges(records, threshold, i, end) == Seq::<Edge>::empty(),
    decreases end - i,
{
    if end > i + 1 {
        lemma_row_empty(records, threshold, i, end - 1);
    }
}

/// No rows have an edge at a threshold above the highest score.
proof fn lemma_rows_empty(records: Seq<Patient>, threshold: u32, rows: int)
    requires
        threshold > MAX_SCORE,
    ensures
        edges_of_rows(records, threshold, rows) == Seq::<Edge>::empty(),
    decreases rows,
{
    if rows > 0 {
        lemma_rows_empty(records, threshold, rows - 1);
        lemma_row_empty(records, threshold, rows - 1, records.len() as int);
    }
}

/// A row has no more edges than records behind its own.
proof fn lemma_row_fits(records: Seq<Patient>, threshold: u32, i: int, end: int)
    requires
        i < end,
    ensures
        row_edges(records, threshold, i, end).len() <= end - i - 1,
    decreases end - i,
{
    if end > i + 1 {
        lemma_row_fits(records, threshold, i, end - 1);
    }
}

/// The first rows have no more edges than pairs with the lower end in them.
proof fn lemma_rows_fit(records: Seq<Patient>, threshold: u32, rows: int)
    requires
        0 <= rows <= records.len(),
    ensures
        2 * edges_of_rows(records, threshold, rows).len() <= rows * (2 * records.len() - rows - 1),
    decreases rows,
{
    let n = records.len() as int;
    if rows > 0 {
        lemma_rows_fit(records, threshold, rows - 1);
        lemma_row_fits(records, threshold, rows - 1, n);
        assert((rows - 1) * (2 * n - (rows - 1) - 1) + 2 * (n - rows) == rows * (2 * n - rows - 1))
            by (nonlinear_arith);
    }
}

} // verus!
