//! The two sides of the game and the contents of a single square.

use vstd::prelude::*;

verus! {

/// One of the two sides. `X` always makes the first move of a game.
#[derive(Debug, Clone, Copy, PartialEq, Eq, Structural)]
pub enum Player {
    X,
    O,
}

impl Player {
    /// The other side.
    pub open spec fn spec_opposite(&self) -> Player {
        match *self {
            Player::X => Player::O,
            Player::O => Player::X,
        }
    }

    /// Returns the other side.
    #[verifier::when_used_as_spec(spec_opposite)]
    pub fn opposite(&self) -> (other: Player)
        ensures
            other == self.spec_opposite(),
    {
        match self {
            Player::X => Player::O,
            Player::O => Player::X,
        }
    }
}

/// What a square of the grid holds.
#[derive(Debug, Clone, Copy, PartialEq, Eq, Structural)]
pub enum Cell {
    Empty,
    Occupied(Player),
}

impl Cell {
    /// Returns `true` exactly when no mark has been placed on the square.
    pub fn is_empty(&self) -> (empty: bool)
        ensures
            empty <==> *self is Empty,
    {
        match self {
            Cell::Empty => true,
            _ => false,
        }
    }
}

} // verus!
