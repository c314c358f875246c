//! The playing board: the grid, whose turn it is, and the rules for placing
//! marks on it.

use crate::player::{Cell, Player};
use crate::position::{
    field, lemma_step_keeps_balance, lemma_step_keeps_lines_of_other_side, on_grid, Position,
};
use vstd::prelude::*;

verus! {

/// The reason a move is turned down: the coordinates lie outside the grid, or
/// the square is already taken. The board is left as it was.
#[derive(Debug, Clone, Copy, PartialEq, Eq, Structural)]
pub struct MoveRejected;

impl MoveRejected {
    /// The words that tell a player that the move was turned down.
    pub fn message(&self) -> (text: &'static str)
        ensures
            text@ == "Move not allowed"@,
    {
        "Move not allowed"
    }
}

/// A 3×3 grid of squares, stored row by row, and the side that moves next.
///
/// The board does not police the course of a game: marks may be placed as
/// long as squares are free, whether or not a side has already won.
#[derive(Debug, Clone, Copy, PartialEq, Eq)]
pub struct Board {
    pub cells: [[Cell; 3]; 3],
    pub current_player: Player,
}

impl View for Board {
    type V = Position;

    open spec fn view(&self) -> Position {
        Position {
            cells: Seq::new(3, |row: int| self.cells[row]@),
            to_move: self.current_player,
        }
    }
}

impl Board {
    /// Creates the board a game starts from: every square empty, `X` to move.
    pub fn new() -> (board: Board)
        ensures
            board@ == Position::initial(),
            board@.balanced(),
    {
        let board = Board { cells: [[Cell::Empty; 3]; 3], current_player: Player::X };
        assert(board@.cells =~~= Position::initial().cells);
        board
    }

    /// Renders the grid as text, one line per row. Each square takes three
    /// characters: a period if it is empty, else the letter of the side that
    /// marked it, with a space on either side.
    pub fn display(&self) -> (text: String)
        ensures
            text@ == self@.text(),
    {
        let mut text = String::new();
        let mut row: usize = 0;
        while row < 3
            invariant
                row <= 3,
                row == 0 ==> text@ == Seq::<char>::empty(),
                row == 1 ==> text@ == self@.row_text(0),
                row == 2 ==> text@ == self@.row_text(0) + self@.row_text(1),
                row == 3 ==> text@ == self@.text(),
            decreases 3 - row,
        {
            let ghost above = text@;
            let mut col: usize = 0;
            while col < 3
                invariant
                    row < 3,
                    col <= 3,
                    col == 0 ==> text@ == above,
                    col == 1 ==> text@ == above + field(self@.at(row as int, 0)),
                    col == 2 ==> text@ == above + field(self@.at(row as int, 0)) + field(
                        self@.at(row as int, 1),
                    ),
                    col == 3 ==> text@ == above + field(self@.at(row as int, 0)) + field(
                        self@.at(row as int, 1),
                    ) + field(self@.at(row as int, 2)),
                decreases 3 - col,
            {
                proof {
                    reveal_strlit(" . ");
                    reveal_strlit(" X ");
                    reveal_strlit(" O ");
                }
                match self.cells[row][col] {
                    Cell::Empty => {
                        assert(" . "@ =~= field(Cell::Empty));
                        text.append(" . ");
                    },
                    Cell::Occupied(Player::X) => {
                        assert(" X "@ =~= field(Cell::Occupied(Player::X)));
                        text.append(" X ");
                    },
                    Cell::Occupied(Player::O) => {
                        assert(" O "@ =~= field(Cell::Occupied(Player::O)));
                        text.append(" O ");
                    },
                }
                col += 1;
            }
            proof {
                reveal_strlit("\n");
                assert("\n"@ =~= seq!['\n']);
            }
            text.append("\n");
            assert(text@ =~= above + self@.row_text(row as int));
            row += 1;
        }
        text
    }

    /// Places the mark of the side to move on the square at `row`, `col` and
    /// passes the turn to the other side.
    ///
    /// The move is rejected, and the board left untouched, when the
    /// coordinates are off the grid or the square is not empty.
    pub fn make_move(&mut self, row: usize, col: usize) -> (result: Result<(), MoveRejected>)
        ensures
            final(self)@ == old(self)@.step(row as int, col as int),
            old(self)@.is_legal(row as int, col as int) ==> result == Ok::<(), MoveRejected>(()),
            !old(self)@.is_legal(row as int, col as int) ==> result == Err::<(), MoveRejected>(
                MoveRejected,
            ),
            result is Ok ==> {
                &&& final(self).current_player == old(self).current_player.spec_opposite()
                &&& final(self)@.at(row as int, col as int) == Cell::Occupied(
                    old(self).current_player,
                )
                &&& forall|r: int, c: int|
                    on_grid(r, c) && !(r == row && c == col) ==> #[trigger] final(self)@.at(r, c)
                        == old(self)@.at(r, c)
            },
            result is Err ==> *final(self) == *old(self),
            old(self)@.balanced() ==> final(self)@.balanced(),
            final(self)@.won(old(self).current_player.spec_opposite()) == old(self)@.won(
                old(self).current_player.spec_opposite(),
            ),
    {
        proof {
            lemma_step_keeps_lines_of_other_side(self@, row as int, col as int);
            if self@.balanced() {
                lemma_step_keeps_balance(self@, row as int, col as int);
            }
        }
        if row < 3 && col < 3 && self.cells[row][col].is_empty() {
            self.cells[row][col] = Cell::Occupied(self.current_player);
            self.current_player = self.current_player.opposite();
            assert(self@.cells =~~= old(self)@.place(row as int, col as int).cells);
            Ok(())
        } else {
            Err(MoveRejected)
        }
    }

    /// Returns `true` exactly when no square is empty.
    pub fn is_full(&self) -> (full: bool)
        ensures
            full == self@.is_full(),
    {
        let mut row: usize = 0;
        while row < 3
            invariant
                row <= 3,
                forall|r: int, c: int|
                    0 <= r < row && 0 <= c < 3 ==> !(#[trigger] self@.at(r, c) is Empty),
            decreases 3 - row,
        {
            let mut col: usize = 0;
            while col < 3
                invariant
                    row < 3,
                    col <= 3,
                    forall|r: int, c: int|
                        0 <= r < row && 0 <= c < 3 ==> !(#[trigger] self@.at(r, c) is Empty),
                    forall|c: int| 0 <= c < col ==> !(#[trigger] self@.at(row as int, c) is Empty),
                decreases 3 - col,
            {
                if self.cells[row][col].is_empty() {
                    assert(self@.at(row as int, col as int) is Empty);
                    return false;
                }
                col += 1;
            }
            row += 1;
        }
        true
    }

    /// Returns the coordinates of the empty squares, row by row from the top
    /// and from left to right within a row.
    pub fn legal_moves(&self) -> (moves: Vec<(usize, usize)>)
        ensures
            self@.lists_legal_moves(moves@),
    {
        let mut moves: Vec<(usize, usize)> = Vec::new();
        let mut row: usize = 0;
        while row < 3
            invariant
                row <= 3,
                self@.lists_legal_moves_before(moves@, row as int, 0),
            decreases 3 - row,
        {
            let mut col: usize = 0;
            while col < 3
                invariant
                    row < 3,
                    col <= 3,
                    self@.lists_legal_moves_before(moves@, row as int, col as int),
                decreases 3 - col,
            {
                if self.cells[row][col].is_empty() {
                    let ghost earlier = moves@;
                    moves.push((row, col));
                    assert(moves@[earlier.len() as int] == (row, col));
                    assert(forall|k: int| 0 <= k < earlier.len() ==> moves@[k] == earlier[k]);
                }
                col += 1;
            }
            row += 1;
        }
        moves
    }

    /// `player` holds the three squares listed in `line`.
    spec fn owns_line(&self, player: Player, line: [(usize, usize); 3]) -> bool {
        &&& self@.owns(player, line[0].0 as int, line[0].1 as int)
        &&& self@.owns(player, line[1].0 as int, line[1].1 as int)
        &&& self@.owns(player, line[2].0 as int, line[2].1 as int)
    }

    /// Returns `true` exactly when the square at `square` carries `player`'s
    /// mark.
    fn owns(&self, player: Player, square: (usize, usize)) -> (owned: bool)
        requires
            on_grid(square.0 as int, square.1 as int),
        ensures
            owned == self@.owns(player, square.0 as int, square.1 as int),
    {
        match self.cells[square.0][square.1] {
            Cell::Occupied(p) => p == player,
            Cell::Empty => false,
        }
    }

    /// Returns `true` exactly when `player` holds all three squares of a row,
    /// a column or a diagonal.
    #[verifier::loop_isolation(false)]
    pub fn has_won(&self, player: Player) -> (won: bool)
        ensures
            won == self@.won(player),
    {
        let lines: [[(usize, usize); 3]; 8] = [
            [(0, 0), (0, 1), (0, 2)],
            [(1, 0), (1, 1), (1, 2)],
            [(2, 0), (2, 1), (2, 2)],
            [(0, 0), (1, 0), (2, 0)],
            [(0, 1), (1, 1), (2, 1)],
            [(0, 2), (1, 2), (2, 2)],
            [(0, 0), (1, 1), (2, 2)],
            [(0, 2), (1, 1), (2, 0)],
        ];
        let mut k: usize = 0;
        while k < 8
            invariant
                k <= 8,
                forall|j: int| 0 <= j < k ==> !self.owns_line(player, #[trigger] lines[j]),
            decreases 8 - k,
        {
            let line = lines[k];
            if self.owns(player, line[0]) && self.owns(player, line[1]) && self.owns(
                player,
                line[2],
            ) {
                return true;
            }
            k += 1;
        }
        false
    }
}

} // verus!
