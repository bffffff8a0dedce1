//! The engine's search components, leaves first: the board boundary, the
//! static exchange evaluator, the evaluator, the Zobrist hasher, the
//! transposition table, the move orderer, the alpha-beta searcher, and the
//! noise-filtered sampler with its safety probe.
pub mod board;
pub mod see;
pub mod eval;
pub mod zobrist;
pub mod tt;
pub mod order;
pub mod alphabeta;
pub mod alphabeta_temp;
pub mod noise;
pub mod safety;
