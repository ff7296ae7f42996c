//! The benchmark: labelled queries, and how well the search backends answer them.

pub mod score;
pub mod types;

pub use score::{normalize_path, paths_match, score_results, Ratio, ScoreMetrics};
pub use types::{BackendResult, BenchmarkFixture, BenchmarkQuery, QueryResult};
