pub mod position;
pub mod eval;
pub mod search;
pub mod laws;

pub use eval::evaluate;
pub use position::{Move, Piece, Position, Status};
pub use search::{alpha_beta, best_move_with_count, find_best_move};
