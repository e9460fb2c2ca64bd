//! Health-survey records, a similarity graph over them, and a neighbour-based
//! estimate of a binary health risk.
//!
//! * [`patient`] holds the record type.
//! * [`similarity`] scores two records on a fixed list of features.
//! * [`partition`] shuffles a collection of records and cuts it into samples,
//!   and into training and test records.
//! * [`graph_ops`] holds the graph type and what is taken on trust about it.
//! * [`builder`] builds the similarity graph of a set of records.
//! * [`predictor`] estimates the risk of a new record from its neighbours in
//!   the graph.

pub mod builder;
pub mod graph_ops;
pub mod partition;
pub mod patient;
pub mod predictor;
pub mod similarity;

pub use builder::build_graph;
pub use graph_ops::{Edge, SimilarityGraph, GRAPH_CAPACITY};
pub use partition::{
    process_dataset, randomize_and_split, split_and_randomize, split_dataset, split_quarters,
    split_train_test, test_size, Ratio,
};
pub use patient::Patient;
pub use predictor::{count_correct, predict_risk, predict_risk_checked, RiskEstimate};
pub use similarity::{calculate_similarity, Feature, MAX_SCORE};
