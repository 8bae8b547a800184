//! A verified tic-tac-toe engine.
//!
//! `board` models the 3x3 grid and its mutations, `eval` classifies a
//! board as won, drawn or still in progress, and `engine` runs the
//! exhaustive minimax search that picks the computer's move.

pub mod board;
pub mod engine;
pub mod eval;

pub use board::Board;
pub use engine::best_move;
pub use engine::computer_move;
pub use engine::minimax;
pub use eval::Outcome;
pub use eval::check_win;
pub use eval::evaluate_score;
pub use board::Cell;
pub use board::GameError;
pub use board::Move;
