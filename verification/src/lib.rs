//! An Othello engine: a bitboard rules core with verified move legality,
//! flip computation and terminal detection; a phase-aware static evaluator;
//! and an iterative-deepening alpha-beta negamax search with transposition
//! table, move ordering, aspiration windows and pruning heuristics. A game
//! record and the plain state of an interactive surface round it off.

pub mod bits;
pub mod board;
pub mod clock;
pub mod eval;
pub mod game_stats;
pub mod heuristics;
pub mod player;
pub mod search;
pub mod ttable;
pub mod ui_state;
