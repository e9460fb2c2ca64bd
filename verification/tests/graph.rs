use heart_risk::{
    build_graph, calculate_similarity, count_correct, predict_risk, predict_risk_checked, Patient,
    RiskEstimate,
};
use petgraph::graph::{Graph, NodeIndex};
use petgraph::Undirected;

/// The estimate as a number: the mean outcome of the neighbours, and zero
/// where there are none.
fn risk_value(estimate: RiskEstimate) -> f64 {
    if estimate.neighbors == 0 {
        0.0
    } else {
        estimate.outcome_sum as f64 / estimate.neighbors as f64
    }
}

#[test]
fn graph_test_build_graph() {
    let patients = vec![
        Patient { State_INT: 1, Sex_INT: 0, GeneralHealth_INT: 3, SleepHours: 7, ..Default::default() },
        Patient { State_INT: 1, Sex_INT: 0, GeneralHealth_INT: 3, SleepHours: 7, ..Default::default() },
        Patient { State_INT: 2, Sex_INT: 1, GeneralHealth_INT: 2, SleepHours: 8, ..Default::default() },
    ];

    let graph = build_graph(&patients, 1);
    assert_eq!(graph.node_count(), 3, "Graph should have 3 nodes");
    assert!(graph.edge_count() >= 1, "Graph should have at least 1 edge");
}

#[test]
fn graph_test_predict_risk() {
    let patient1 = Patient { HadHeartAttack_INT: 1, ..Default::default() };
    let patient2 = Patient { HadHeartAttack_INT: 0, ..Default::default() };
    let new_patient = Patient { HadHeartAttack_INT: 0, ..Default::default() };

    let mut graph = Graph::<Patient, u32, Undirected>::new_undirected();
    let node1 = graph.add_node(patient1);
    let node2 = graph.add_node(patient2);
    graph.add_edge(node1, node2, 5);
    let risk = predict_risk(&graph, new_patient, 1);
    assert_eq!(risk_value(risk), 0.5, "Predicted risk should be 0.5");
}

fn two_alike() -> Vec<Patient> {
    vec![
        Patient { State_INT: 1, Sex_INT: 0, GeneralHealth_INT: 3, PhysicalHealthDays: 2, MentalHealthDays: 1, LastCheckupTime_INT: 0, PhysicalActivities_INT: 4, SleepHours: 7, RemovedTeeth_INT: 0, HadHeartAttack_INT: 1, ..Default::default() },
        Patient { State_INT: 1, Sex_INT: 0, GeneralHealth_INT: 3, PhysicalHealthDays: 2, MentalHealthDays: 1, LastCheckupTime_INT: 0, PhysicalActivities_INT: 4, SleepHours: 7, RemovedTeeth_INT: 0, HadHeartAttack_INT: 1, ..Default::default() },
    ]
}

#[test]
fn test_test_build_graph() {
    let patients = two_alike();

    let graph = build_graph(&patients, 2);

    assert_eq!(graph.node_count(), 2, "Graph should have 2 nodes");
    assert_eq!(graph.edge_count(), 1, "Graph should have 1 edge");
}

#[test]
fn test_test_predict_risk() {
    let patients = two_alike();

    let graph = build_graph(&patients, 2);

    let new_patient = Patient {
        State_INT: 1,
        Sex_INT: 0,
        GeneralHealth_INT: 3,
        PhysicalHealthDays: 2,
        MentalHealthDays: 1,
        LastCheckupTime_INT: 0,
        PhysicalActivities_INT: 4,
        SleepHours: 7,
        RemovedTeeth_INT: 0,
        HadHeartAttack_INT: 0,
        ..Default::default()
    };

    let risk = predict_risk(&graph, new_patient, 2);
    assert_eq!(risk_value(risk), 1.0, "Predicted risk should be 1.0");
}

/// Five records: the first three alike, the fourth apart from them on six
/// features, the fifth apart from all on every feature.
fn sample() -> Vec<Patient> {
    let base = Patient { State_INT: 5, Sex_INT: 1, GeneralHealth_INT: 3, SleepHours: 7, WeightHundredths: 7000, BMIHundredths: 2500, ..Default::default() };
    vec![
        Patient { HadHeartAttack_INT: 1, ..base },
        Patient { SleepHours: 8, ..base },
        Patient { State_INT: 6, HadHeartAttack_INT: 1, ..base },
        Patient { State_INT: 9, Sex_INT: 0, RaceEthnicityCategory_INT: 4, GeneralHealth_INT: 9, SleepHours: 1, WeightHundredths: 12000, ..base },
        Patient {
            State_INT: 40,
            Sex_INT: 2,
            GeneralHealth_INT: 20,
            PhysicalActivities_INT: 20,
            MentalHealthDays: 30,
            LastCheckupTime_INT: 20,
            PhysicalHealthDays: 30,
            SleepHours: 20,
            RaceEthnicityCategory_INT: 9,
            WeightHundredths: 20000,
            BMIHundredths: 6000,
            ..Default::default()
        },
    ]
}

#[test]
fn build_graph_joins_exactly_the_similar_pairs() {
    let patients = sample();
    let graph = build_graph(&patients, 10);
    assert_eq!(graph.node_count(), 5);
    let edges: Vec<(usize, usize, u32)> = graph
        .raw_edges()
        .iter()
        .map(|e| (e.source().index(), e.target().index(), e.weight))
        .collect();
    assert_eq!(edges, vec![(0, 1, 11), (0, 2, 10), (1, 2, 10)]);
}

#[test]
fn build_graph_keeps_the_records_in_order() {
    let patients = sample();
    let graph = build_graph(&patients, 3);
    for (i, patient) in patients.iter().enumerate() {
        assert_eq!(graph.node_weight(NodeIndex::new(i)), Some(patient));
    }
}

#[test]
fn build_graph_has_no_loops_and_no_double_edges() {
    let patients = sample();
    let graph = build_graph(&patients, 0);
    assert_eq!(graph.edge_count(), 10);
    let mut pairs: Vec<(usize, usize)> =
        graph.raw_edges().iter().map(|e| (e.source().index(), e.target().index())).collect();
    assert!(pairs.iter().all(|(a, b)| a < b));
    pairs.sort();
    pairs.dedup();
    assert_eq!(pairs.len(), 10);
}

#[test]
fn edge_weights_are_the_scores() {
    let patients = sample();
    let graph = build_graph(&patients, 0);
    for e in graph.raw_edges() {
        let a = &patients[e.source().index()];
        let b = &patients[e.target().index()];
        assert_eq!(e.weight, calculate_similarity(a, b));
    }
}

#[test]
fn raising_the_threshold_never_adds_an_edge() {
    let patients = sample();
    let counts: Vec<usize> = (0..=12).map(|t| build_graph(&patients, t).edge_count()).collect();
    // The ten pairs score 11, 10, 10, 5, 5, 5, 0, 0, 0 and 0.
    assert_eq!(counts, vec![10, 6, 6, 6, 6, 6, 3, 3, 3, 3, 3, 1, 0]);
    for pair in counts.windows(2) {
        assert!(pair[1] <= pair[0]);
    }
}

#[test]
fn threshold_above_the_highest_score_gives_no_edges() {
    let patients = two_alike();
    let graph = build_graph(&patients, 12);
    assert_eq!(graph.node_count(), 2);
    assert_eq!(graph.edge_count(), 0);
}

#[test]
fn no_records_give_an_empty_graph() {
    let graph = build_graph(&[], 1);
    assert_eq!(graph.node_count(), 0);
    assert_eq!(graph.edge_count(), 0);
}

#[test]
fn one_record_gives_one_node_and_no_edge() {
    let graph = build_graph(&[Patient::default()], 0);
    assert_eq!(graph.node_count(), 1);
    assert_eq!(graph.edge_count(), 0);
}

#[test]
fn end_to_end_example() {
    let r1 = Patient { State_INT: 3, GeneralHealth_INT: 2, HadHeartAttack_INT: 1, ..Default::default() };
    let r2 = Patient { HadHeartAttack_INT: 0, ..r1 };
    let graph = build_graph(&[r1, r2], 1);
    assert_eq!(graph.node_count(), 2);
    assert_eq!(graph.edge_count(), 1);
    let estimate = predict_risk(&graph, r2, 1);
    assert_eq!(estimate, RiskEstimate { outcome_sum: 1, neighbors: 2 });
    assert_eq!(risk_value(estimate), 0.5);
}

#[test]
fn predict_without_neighbors_is_zero() {
    let patients = sample();
    let graph = build_graph(&patients, 10);
    let stranger = Patient { State_INT: 77, Sex_INT: 7, GeneralHealth_INT: 100, PhysicalActivities_INT: 100, MentalHealthDays: 100, LastCheckupTime_INT: 100, PhysicalHealthDays: 100, SleepHours: 100, RaceEthnicityCategory_INT: 77, WeightHundredths: 90000, BMIHundredths: 90000, ..Default::default() };
    let estimate = predict_risk(&graph, stranger, 1);
    assert_eq!(estimate, RiskEstimate { outcome_sum: 0, neighbors: 0 });
    assert_eq!(risk_value(estimate), 0.0);
    assert_eq!(estimate.label(), 0);
}

#[test]
fn predict_on_an_empty_graph_is_zero() {
    let graph = build_graph(&[], 0);
    let estimate = predict_risk(&graph, Patient::default(), 0);
    assert_eq!(estimate, RiskEstimate { outcome_sum: 0, neighbors: 0 });
    assert_eq!(risk_value(estimate), 0.0);
}

#[test]
fn predict_averages_over_the_similar_records_only() {
    let patients = sample();
    let graph = build_graph(&patients, 10);
    let candidate = patients[1];
    // Against the candidate the records score 11, 11, 10, 5 and 0.
    assert_eq!(predict_risk(&graph, candidate, 10), RiskEstimate { outcome_sum: 2, neighbors: 3 });
    assert_eq!(predict_risk(&graph, candidate, 11), RiskEstimate { outcome_sum: 1, neighbors: 2 });
    assert_eq!(predict_risk(&graph, candidate, 5), RiskEstimate { outcome_sum: 2, neighbors: 4 });
    assert_eq!(predict_risk(&graph, candidate, 0), RiskEstimate { outcome_sum: 2, neighbors: 5 });
    assert_eq!(predict_risk(&graph, candidate, 12), RiskEstimate { outcome_sum: 0, neighbors: 0 });
}

#[test]
fn predict_does_not_depend_on_the_edges_of_the_graph() {
    let patients = sample();
    let sparse = build_graph(&patients, 12);
    let dense = build_graph(&patients, 0);
    let candidate = patients[0];
    assert_eq!(predict_risk(&sparse, candidate, 10), predict_risk(&dense, candidate, 10));
}

#[test]
fn predict_twice_gives_the_same_and_leaves_the_graph() {
    let patients = sample();
    let graph = build_graph(&patients, 6);
    let nodes = graph.node_count();
    let edges = graph.edge_count();
    let first = predict_risk(&graph, patients[2], 6);
    assert_eq!(graph.node_count(), nodes);
    assert_eq!(graph.edge_count(), edges);
    let second = predict_risk(&graph, patients[2], 6);
    assert_eq!(graph.node_count(), nodes);
    assert_eq!(graph.edge_count(), edges);
    assert_eq!(first, second);
    assert_eq!(risk_value(first), risk_value(second));
}

#[test]
fn predict_sums_outcomes_that_are_not_binary() {
    let a = Patient { HadHeartAttack_INT: 3, ..Default::default() };
    let b = Patient { HadHeartAttack_INT: 255, ..Default::default() };
    let graph = build_graph(&[a, b, b], 0);
    let estimate = predict_risk(&graph, Patient::default(), 11);
    assert_eq!(estimate, RiskEstimate { outcome_sum: 513, neighbors: 3 });
}

#[test]
fn label_is_one_from_one_half_up() {
    assert_eq!(RiskEstimate { outcome_sum: 0, neighbors: 0 }.label(), 0);
    assert_eq!(RiskEstimate { outcome_sum: 0, neighbors: 3 }.label(), 0);
    assert_eq!(RiskEstimate { outcome_sum: 1, neighbors: 3 }.label(), 0);
    assert_eq!(RiskEstimate { outcome_sum: 1, neighbors: 2 }.label(), 1);
    assert_eq!(RiskEstimate { outcome_sum: 2, neighbors: 3 }.label(), 1);
    assert_eq!(RiskEstimate { outcome_sum: 3, neighbors: 3 }.label(), 1);
    assert_eq!(RiskEstimate { outcome_sum: u64::MAX, neighbors: u64::MAX }.label(), 1);
    assert_eq!(RiskEstimate { outcome_sum: u64::MAX / 2, neighbors: u64::MAX }.label(), 0);
}

#[test]
fn count_correct_counts_the_labels_that_match() {
    let patients = sample();
    let graph = build_graph(&patients, 10);
    // Labels at threshold 10: 1 (2 of 3), 1 (2 of 3), 1 (2 of 3), 0 (0 of 1), 0 (none).
    let tests = vec![
        patients[0],
        patients[1],
        patients[2],
        patients[3],
        Patient { HadHeartAttack_INT: 1, ..patients[4] },
        Patient { HadHeartAttack_INT: 2, ..patients[0] },
    ];
    assert_eq!(count_correct(&graph, &tests, 10), Some(3));
    assert_eq!(count_correct(&graph, &[], 10), Some(0));
    // At threshold 12 nobody has a neighbour and every label is 0.
    assert_eq!(count_correct(&graph, &tests, 12), Some(2));
}

#[test]
fn checked_prediction_agrees_with_prediction() {
    let patients = sample();
    let graph = build_graph(&patients, 10);
    for candidate in &patients {
        for threshold in [0, 5, 10, 11, 12] {
            assert_eq!(
                predict_risk_checked(&graph, *candidate, threshold),
                Some(predict_risk(&graph, *candidate, threshold))
            );
        }
    }
    let empty = build_graph(&[], 0);
    assert_eq!(
        predict_risk_checked(&empty, Patient::default(), 0),
        Some(RiskEstimate { outcome_sum: 0, neighbors: 0 })
    );
}
