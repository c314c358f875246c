//! The mathematical model of a game position: a 3×3 grid of squares and the
//! side that moves next. Every contract of the crate is stated over it.

use crate::player::{Cell, Player};
use vstd::prelude::*;

verus! {

/// `true` when `row` and `col` name a square of the grid.
pub open spec fn on_grid(row: int, col: int) -> bool {
    0 <= row < 3 && 0 <= col < 3
}

/// Row-major order on squares: `(r1, c1)` comes strictly before `(r2, c2)`.
pub open spec fn precedes(r1: int, c1: int, r2: int, c2: int) -> bool {
    r1 < r2 || (r1 == r2 && c1 < c2)
}

/// The character that shows a square: a period for an empty one, the letter
/// of its owner for a marked one.
pub open spec fn symbol(cell: Cell) -> char {
    match cell {
        Cell::Empty => '.',
        Cell::Occupied(Player::X) => 'X',
        Cell::Occupied(Player::O) => 'O',
    }
}

/// The three characters that show a square: its symbol between two spaces.
pub open spec fn field(cell: Cell) -> Seq<char> {
    seq![' ', symbol(cell), ' ']
}

/// A grid of squares, row by row, together with the side that moves next.
pub struct Position {
    pub cells: Seq<Seq<Cell>>,
    pub to_move: Player,
}

impl Position {
    /// The grid has three rows of three squares.
    pub open spec fn wf(self) -> bool {
        &&& self.cells.len() == 3
        &&& self.cells[0].len() == 3
        &&& self.cells[1].len() == 3
        &&& self.cells[2].len() == 3
    }

    /// The position a game starts from: nothing placed, `X` to move.
    pub open spec fn initial() -> Position {
        Position {
            cells: Seq::new(3, |row: int| Seq::new(3, |col: int| Cell::Empty)),
            to_move: Player::X,
        }
    }

    /// What the square at `row`, `col` holds.
    pub open spec fn at(self, row: int, col: int) -> Cell {
        self.cells[row][col]
    }

    /// The same grid with `player` to move.
    pub open spec fn acting(self, player: Player) -> Position {
        Position { cells: self.cells, to_move: player }
    }

    /// A move at `row`, `col` is allowed: the square is on the grid and empty.
    pub open spec fn is_legal(self, row: int, col: int) -> bool {
        on_grid(row, col) && self.at(row, col) is Empty
    }

    /// The position after the side to move marks the square at `row`, `col`:
    /// that square is theirs, and the turn passes to the other side.
    pub open spec fn place(self, row: int, col: int) -> Position {
        Position {
            cells: self.cells.update(
                row,
                self.cells[row].update(col, Cell::Occupied(self.to_move)),
            ),
            to_move: self.to_move.spec_opposite(),
        }
    }

    /// The position after an attempt to move at `row`, `col`: a legal move is
    /// played, any other attempt changes nothing.
    pub open spec fn step(self, row: int, col: int) -> Position {
        if self.is_legal(row, col) {
            self.place(row, col)
        } else {
            self
        }
    }

    /// `moves` holds the legal moves on the squares that come before
    /// `(row, col)` in row-major order, each of them once, in that order.
    pub open spec fn lists_legal_moves_before(
        self,
        moves: Seq<(usize, usize)>,
        row: int,
        col: int,
    ) -> bool {
        &&& forall|k: int|
            0 <= k < moves.len() ==> {
                &&& self.is_legal((#[trigger] moves[k]).0 as int, moves[k].1 as int)
                &&& precedes(moves[k].0 as int, moves[k].1 as int, row, col)
            }
        &&& forall|k: int, l: int|
            0 <= k < l < moves.len() ==> precedes(
                (#[trigger] moves[k]).0 as int,
                moves[k].1 as int,
                (#[trigger] moves[l]).0 as int,
                moves[l].1 as int,
            )
        &&& forall|r: int, c: int|
            #[trigger] self.is_legal(r, c) && precedes(r, c, row, col) ==> moves.contains(
                (r as usize, c as usize),
            )
    }

    /// `moves` holds the legal moves of the position, each of them once, in
    /// row-major order.
    pub open spec fn lists_legal_moves(self, moves: Seq<(usize, usize)>) -> bool {
        self.lists_legal_moves_before(moves, 3, 0)
    }

    /// No square of the grid is empty.
    pub open spec fn is_full(self) -> bool {
        forall|row: int, col: int| on_grid(row, col) ==> !(#[trigger] self.at(row, col) is Empty)
    }

    /// The square at `row`, `col` carries `player`'s mark.
    pub open spec fn owns(self, player: Player, row: int, col: int) -> bool {
        self.at(row, col) == Cell::Occupied(player)
    }

    /// `player` holds all three squares of row `row`.
    pub open spec fn owns_row(self, player: Player, row: int) -> bool {
        self.owns(player, row, 0) && self.owns(player, row, 1) && self.owns(player, row, 2)
    }

    /// `player` holds all three squares of column `col`.
    pub open spec fn owns_column(self, player: Player, col: int) -> bool {
        self.owns(player, 0, col) && self.owns(player, 1, col) && self.owns(player, 2, col)
    }

    /// `player` holds the diagonal from the top left to the bottom right.
    pub open spec fn owns_diagonal(self, player: Player) -> bool {
        self.owns(player, 0, 0) && self.owns(player, 1, 1) && self.owns(player, 2, 2)
    }

    /// `player` holds the diagonal from the top right to the bottom left.
    pub open spec fn owns_antidiagonal(self, player: Player) -> bool {
        self.owns(player, 0, 2) && self.owns(player, 1, 1) && self.owns(player, 2, 0)
    }

    /// `player` holds a complete line: one of the three rows, the three
    /// columns or the two diagonals.
    pub open spec fn won(self, player: Player) -> bool {
        ||| self.owns_row(player, 0)
        ||| self.owns_row(player, 1)
        ||| self.owns_row(player, 2)
        ||| self.owns_column(player, 0)
        ||| self.owns_column(player, 1)
        ||| self.owns_column(player, 2)
        ||| self.owns_diagonal(player)
        ||| self.owns_antidiagonal(player)
    }

    /// The game has ended: a side has a complete line, or the grid is full.
    pub open spec fn is_over(self) -> bool {
        self.won(Player::X) || self.won(Player::O) || self.is_full()
    }

    /// The line of text that shows row `row`: the fields of its three squares
    /// from left to right, closed by a line feed.
    pub open spec fn row_text(self, row: int) -> Seq<char> {
        field(self.at(row, 0)) + field(self.at(row, 1)) + field(self.at(row, 2)) + seq!['\n']
    }

    /// The text that shows the grid: its three rows from the top down.
    pub open spec fn text(self) -> Seq<char> {
        self.row_text(0) + self.row_text(1) + self.row_text(2)
    }

    /// One if the square at `row`, `col` holds exactly `cell`, zero otherwise.
    pub open spec fn holds(self, cell: Cell, row: int, col: int) -> int {
        if self.at(row, col) == cell {
            1
        } else {
            0
        }
    }

    /// The number of squares of the grid that hold exactly `cell`.
    pub open spec fn count(self, cell: Cell) -> int {
        self.holds(cell, 0, 0) + self.holds(cell, 0, 1) + self.holds(cell, 0, 2)
            + self.holds(cell, 1, 0) + self.holds(cell, 1, 1) + self.holds(cell, 1, 2)
            + self.holds(cell, 2, 0) + self.holds(cell, 2, 1) + self.holds(cell, 2, 2)
    }

    /// The number of marks `player` has on the grid.
    pub open spec fn marks(self, player: Player) -> int {
        self.count(Cell::Occupied(player))
    }

    /// The number of empty squares.
    pub open spec fn empties(self) -> int {
        self.count(Cell::Empty)
    }

    /// The sides have moved in turn, `X` first: the grid is well formed, `X`
    /// has as many marks as `O` when it is to move, and one more when `O` is
    /// to move.
    pub open spec fn balanced(self) -> bool {
        &&& self.wf()
        &&& self.to_move == Player::X ==> self.marks(Player::X) == self.marks(Player::O)
        &&& self.to_move == Player::O ==> self.marks(Player::X) == self.marks(Player::O) + 1
    }
}

/// A move changes the square it is played on and no other, keeps the shape of
/// the grid, and passes the turn.
pub proof fn lemma_place_squares(pos: Position, row: int, col: int)
    requires
        pos.wf(),
        on_grid(row, col),
    ensures
        pos.place(row, col).wf(),
        pos.place(row, col).to_move == pos.to_move.spec_opposite(),
        pos.place(row, col).at(row, col) == Cell::Occupied(pos.to_move),
        forall|r: int, c: int|
            on_grid(r, c) && !(r == row && c == col) ==> #[trigger] pos.place(row, col).at(r, c)
                == pos.at(r, c),
{
}

/// A legal move uses up one empty square, adds one mark for the mover and
/// none for the other side.
pub proof fn lemma_place_counts(pos: Position, row: int, col: int)
    requires
        pos.wf(),
        pos.is_legal(row, col),
    ensures
        pos.place(row, col).empties() == pos.empties() - 1,
        pos.place(row, col).marks(pos.to_move) == pos.marks(pos.to_move) + 1,
        pos.place(row, col).marks(pos.to_move.spec_opposite()) == pos.marks(
            pos.to_move.spec_opposite(),
        ),
        0 <= pos.place(row, col).empties(),
{
    lemma_place_squares(pos, row, col);
}

/// An attempted move keeps the marks of the two sides in balance.
pub proof fn lemma_step_keeps_balance(pos: Position, row: int, col: int)
    requires
        pos.balanced(),
    ensures
        pos.step(row, col).balanced(),
{
    if pos.is_legal(row, col) {
        lemma_place_squares(pos, row, col);
        lemma_place_counts(pos, row, col);
    }
}

/// An attempted move neither completes nor breaks a line of the side that
/// does not make it.
pub proof fn lemma_step_keeps_lines_of_other_side(pos: Position, row: int, col: int)
    requires
        pos.wf(),
    ensures
        pos.step(row, col).won(pos.to_move.spec_opposite()) == pos.won(
            pos.to_move.spec_opposite(),
        ),
{
    if pos.is_legal(row, col) {
        lemma_place_squares(pos, row, col);
    }
}

/// Two lists of the legal moves of a position agree on their first `k`
/// entries.
proof fn lemma_move_lists_agree(
    pos: Position,
    a: Seq<(usize, usize)>,
    b: Seq<(usize, usize)>,
    k: int,
)
    requires
        pos.lists_legal_moves(a),
        pos.lists_legal_moves(b),
        0 <= k <= a.len(),
        k <= b.len(),
    ensures
        forall|i: int| 0 <= i < k ==> a[i] == b[i],
    decreases k,
{
    if k > 0 {
        lemma_move_lists_agree(pos, a, b, k - 1);
        let i = k - 1;
        assert(pos.is_legal(a[i].0 as int, a[i].1 as int));
        assert(b.contains(a[i]));
        let j = choose|j: int| 0 <= j < b.len() && b[j] == a[i];
        assert(pos.is_legal(b[i].0 as int, b[i].1 as int));
        assert(a.contains(b[i]));
        let l = choose|l: int| 0 <= l < a.len() && a[l] == b[i];
        if j < i {
            assert(a[j] == b[j]);
        }
        if l < i {
            assert(a[l] == b[l]);
        }
    }
}

/// A position has a single list of legal moves: two sequences that both hold
/// its legal moves in row-major order are equal.
pub proof fn lemma_legal_moves_unique(
    pos: Position,
    a: Seq<(usize, usize)>,
    b: Seq<(usize, usize)>,
)
    requires
        pos.lists_legal_moves(a),
        pos.lists_legal_moves(b),
    ensures
        a == b,
{
    let n = if a.len() <= b.len() {
        a.len() as int
    } else {
        b.len() as int
    };
    lemma_move_lists_agree(pos, a, b, n);
    if a.len() > n {
        assert(pos.is_legal(a[n].0 as int, a[n].1 as int));
        assert(b.contains(a[n]));
        let j = choose|j: int| 0 <= j < b.len() && b[j] == a[n];
        assert(a[j] == b[j]);
    }
    if b.len() > n {
        assert(pos.is_legal(b[n].0 as int, b[n].1 as int));
        assert(a.contains(b[n]));
        let l = choose|l: int| 0 <= l < a.len() && a[l] == b[n];
        assert(a[l] == b[l]);
    }
    assert(a =~= b);
}

} // verus!
