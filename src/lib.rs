//! A small chess engine core: a piece-square evaluator, a fixed-depth
//! minimax search over moves supplied by the `chess` rules engine, the
//! reader and writer of the placement field of FEN text, the per-cycle move
//! policies, and the two-pick entry of a player's move.

pub mod piece;
pub mod eval;
pub mod fen;
pub mod rules;
pub mod search;
pub mod policy;
pub mod input;
