//! The experimental searcher slot of the A/B harness. It currently
//! re-exports the baseline searcher, so comparisons run it against itself.
pub use crate::search::alphabeta::{EvalMode, SearchParams, SearchResult, Searcher};
