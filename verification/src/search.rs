//! Exhaustive game-tree search: the value of a position under best play by
//! both sides, and the move that secures it.

use crate::board::Board;
use crate::player::Player;
use crate::position::{lemma_place_counts, lemma_place_squares, on_grid, precedes, Position};
use vstd::prelude::*;

verus! {

impl Position {
    /// The outcome of the game when both sides play as well as they can from
    /// here on: `1` if `X` wins, `-1` if `O` wins, `0` for a draw.
    ///
    /// A finished game has the value of its result, a win for `X` taking
    /// precedence over one for `O`. Otherwise `X`, when to move, takes the
    /// greatest value that a legal move leads to, and `O` the least.
    pub open spec fn value(self) -> int
        decreases self.empties(), 1int,
        when self.wf()
    {
        if self.won(Player::X) {
            1
        } else if self.won(Player::O) {
            -1
        } else if self.is_full() {
            0
        } else if self.to_move == Player::X {
            if self.can_reach(1) {
                1
            } else if self.can_reach(0) {
                0
            } else {
                -1
            }
        } else {
            if self.can_reach(-1) {
                -1
            } else if self.can_reach(0) {
                0
            } else {
                1
            }
        }
    }

    /// Some legal move leads to a position of value `v`.
    pub open spec fn can_reach(self, v: int) -> bool
        decreases self.empties(), 0int,
        when self.wf()
    {
        exists|row: int, col: int|
            self.is_legal(row, col) && (#[trigger] self.place(row, col)).value() == v
    }

    /// The move at `row`, `col` is legal and keeps the value of the position.
    pub open spec fn is_best_move(self, row: int, col: int) -> bool {
        self.is_legal(row, col) && self.place(row, col).value() == self.value()
    }

    /// The move at `row`, `col` is the earliest, in row-major order, of the
    /// moves that keep the value of the position.
    pub open spec fn is_first_best_move(self, row: int, col: int) -> bool {
        &&& self.is_best_move(row, col)
        &&& forall|r: int, c: int|
            precedes(r, c, row, col) ==> !#[trigger] self.is_best_move(r, c)
    }

    /// What the side to move makes of the move at `row`, `col`: the value of
    /// the position it leads to for `X`, the negation of that value for `O`.
    /// Either side prefers the greater.
    pub open spec fn score_after(self, row: int, col: int) -> int {
        if self.to_move == Player::X {
            self.place(row, col).value()
        } else {
            -self.place(row, col).value()
        }
    }
}

/// The value of a position is `-1`, `0` or `1`.
pub proof fn lemma_value_range(pos: Position)
    requires
        pos.wf(),
    ensures
        -1 <= pos.value() <= 1,
{
}

/// While a game is on, no legal move improves on the value of the position
/// for the side that makes it: none leads `X` to a greater value, none leads
/// `O` to a smaller one.
pub proof fn lemma_value_is_optimal(pos: Position, row: int, col: int)
    requires
        pos.wf(),
        !pos.is_over(),
        pos.is_legal(row, col),
    ensures
        pos.to_move == Player::X ==> pos.place(row, col).value() <= pos.value(),
        pos.to_move == Player::O ==> pos.place(row, col).value() >= pos.value(),
{
    lemma_place_squares(pos, row, col);
    lemma_value_range(pos.place(row, col));
}

/// While a game is on, some legal move keeps the value of the position.
pub proof fn lemma_value_is_attained(pos: Position)
    requires
        pos.wf(),
        !pos.is_over(),
    ensures
        exists|row: int, col: int| pos.is_best_move(row, col),
{
    let (row, col) = choose|row: int, col: int| on_grid(row, col) && pos.at(row, col) is Empty;
    assert(pos.is_legal(row, col));
    lemma_place_squares(pos, row, col);
    lemma_value_range(pos.place(row, col));
    assert(pos.can_reach(pos.place(row, col).value()));
    assert(pos.can_reach(pos.value()));
    let (r, c) = choose|r: int, c: int|
        pos.is_legal(r, c) && (#[trigger] pos.place(r, c)).value() == pos.value();
    assert(pos.is_best_move(r, c));
}

/// Among the first `seen` of the listed moves, the one at index `best` scores
/// at least as well for the mover as every other, and strictly better than
/// those listed before it.
spec fn leads(pos: Position, moves: Seq<(usize, usize)>, seen: int, best: int) -> bool {
    &&& 0 <= best < seen <= moves.len()
    &&& forall|i: int|
        0 <= i < seen ==> pos.score_after((#[trigger] moves[i]).0 as int, moves[i].1 as int)
            <= pos.score_after(moves[best].0 as int, moves[best].1 as int)
    &&& forall|i: int|
        0 <= i < best ==> pos.score_after((#[trigger] moves[i]).0 as int, moves[i].1 as int)
            < pos.score_after(moves[best].0 as int, moves[best].1 as int)
}

/// A scan over all legal moves that keeps the first of the best-scoring ones
/// finds the value of the position and the first move that keeps it.
proof fn lemma_leader_is_first_best_move(pos: Position, moves: Seq<(usize, usize)>, best: int)
    requires
        pos.wf(),
        !pos.is_over(),
        pos.lists_legal_moves(moves),
        leads(pos, moves, moves.len() as int, best),
    ensures
        pos.is_first_best_move(moves[best].0 as int, moves[best].1 as int),
{
    let row = moves[best].0 as int;
    let col = moves[best].1 as int;
    lemma_place_squares(pos, row, col);
    lemma_value_range(pos.place(row, col));
    assert forall|r: int, c: int| pos.is_legal(r, c) implies {
        &&& #[trigger] pos.score_after(r, c) <= pos.score_after(row, col)
        &&& precedes(r, c, row, col) ==> pos.score_after(r, c) < pos.score_after(row, col)
    } by {
        assert(moves.contains((r as usize, c as usize)));
        let i = choose|i: int| 0 <= i < moves.len() && moves[i] == (r as usize, c as usize);
        if precedes(r, c, row, col) && i > best {
            assert(precedes(row, col, moves[i].0 as int, moves[i].1 as int));
        }
    }
    assert(pos.can_reach(pos.place(row, col).value()));
}

impl Board {
    /// Searches every continuation of the game for the best move of
    /// `player`, taken to be the side to move whatever the board itself
    /// records.
    ///
    /// The score is the value of the position under best play by both sides:
    /// `1` if `X` wins, `-1` if `O` wins, `0` for a draw. No move is returned
    /// when the game is over. Otherwise the move returned is one that keeps
    /// that value, and among those the first in row-major order.
    pub fn minimax(&self, player: Player) -> (result: (i32, Option<(usize, usize)>))
        ensures
            result.0 == self@.acting(player).value(),
            -1 <= result.0 <= 1,
            self@.is_over() ==> result.1 is None,
            !self@.is_over() ==> (result.1 matches Some(best) && self@.acting(
                player,
            ).is_first_best_move(best.0 as int, best.1 as int)),
        decreases self@.empties(),
    {
        let start = Board { cells: self.cells, current_player: player };
        let ghost pos = start@;
        assert(pos == self@.acting(player));
        if start.has_won(Player::X) {
            return (1, None);
        } else if start.has_won(Player::O) {
            return (-1, None);
        } else if start.is_full() {
            return (0, None);
        }
        let moves = start.legal_moves();
        let mut best_score: i32 = i32::MIN;
        let mut best_move: Option<(usize, usize)> = None;
        let ghost mut best_index: int = 0;
        let mut k: usize = 0;
        while k < moves.len()
            invariant
                k <= moves.len(),
                pos == start@,
                start.current_player == player,
                pos.wf(),
                pos.empties() == self@.empties(),
                pos.lists_legal_moves(moves@),
                k == 0 ==> best_move is None && best_score == i32::MIN,
                k > 0 ==> {
                    &&& leads(pos, moves@, k as int, best_index)
                    &&& best_move == Some(moves@[best_index])
                    &&& best_score == pos.score_after(
                        moves@[best_index].0 as int,
                        moves@[best_index].1 as int,
                    )
                    &&& -1 <= best_score <= 1
                },
            decreases moves.len() - k,
        {
            let row: usize = moves[k].0;
            let col: usize = moves[k].1;
            let mut next = start;
            next.make_move(row, col).unwrap();
            proof {
                lemma_place_counts(pos, row as int, col as int);
                lemma_place_squares(pos, row as int, col as int);
                assert(next@.acting(player.spec_opposite()) == next@);
            }
            let (child, _) = next.minimax(player.opposite());
            let score: i32 = if player == Player::X {
                child
            } else {
                -child
            };
            if score > best_score {
                best_score = score;
                best_move = Some((row, col));
                proof {
                    best_index = k as int;
                }
            }
            k += 1;
        }
        proof {
            let (r, c) = choose|r: int, c: int| on_grid(r, c) && pos.at(r, c) is Empty;
            assert(pos.is_legal(r, c));
            assert(moves@.contains((r as usize, c as usize)));
            lemma_leader_is_first_best_move(pos, moves@, best_index);
        }
        let score: i32 = if player == Player::X {
            best_score
        } else {
            -best_score
        };
        (score, best_move)
    }
}

} // verus!
