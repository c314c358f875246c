//! Noughts and crosses on a 3×3 grid, with an exhaustive game-tree search
//! that plays optimally for either side.

pub mod board;
pub mod game;
pub mod player;
pub mod position;
pub mod search;

pub use board::{Board, MoveRejected};
pub use game::{Outcome, Phase};
pub use player::{Cell, Player};
pub use position::Position;
