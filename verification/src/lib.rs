//! Search core of a chess engine: iterative-deepening alpha-beta with a
//! transposition table, move ordering heuristics, quiescence, null-move
//! pruning, static exchange evaluation, and a noise-filtered move sampler.
//!
//! Board representation and legal move generation come from the `cozy_chess`
//! crate; everything built on top of them is verified.
pub mod search;
