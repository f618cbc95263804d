//! A verified chess engine core: board representation, legal move
//! generation, make/unmake with history, an incrementally maintained
//! Zobrist hash, a static evaluator, move ordering, and a negamax
//! search with alpha-beta pruning and quiescence extension.

pub mod ai_utils;
pub mod board;
pub mod board_piece;
pub mod board_state;
pub mod laws;
pub mod move_generator;
pub mod move_generator_helper;
pub mod moves;
pub mod perft;
pub mod pieces;
pub mod search;
pub mod zobrist;
