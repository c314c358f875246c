//! The course of a game: whose turn it is, when play ends, the reply of the
//! automated side, and what holds of every position that play can lead to.

use crate::board::Board;
use crate::player::Player;
use crate::position::{
    lemma_place_squares, lemma_step_keeps_balance, lemma_step_keeps_lines_of_other_side, Position,
};
use vstd::prelude::*;

verus! {

/// How a finished game ended.
#[derive(Debug, Clone, Copy, PartialEq, Eq, Structural)]
pub enum Outcome {
    XWins,
    OWins,
    Draw,
}

impl Outcome {
    /// The announcement of the outcome, as characters.
    pub open spec fn banner_text(self) -> Seq<char> {
        match self {
            Outcome::XWins => "X wins"@,
            Outcome::OWins => "O wins"@,
            Outcome::Draw => "Draw"@,
        }
    }

    /// The words that announce the outcome.
    pub fn banner(&self) -> (text: &'static str)
        ensures
            text@ == self.banner_text(),
    {
        match self {
            Outcome::XWins => "X wins",
            Outcome::OWins => "O wins",
            Outcome::Draw => "Draw",
        }
    }
}

/// Where a game stands at the start of a turn.
#[derive(Debug, Clone, Copy, PartialEq, Eq, Structural)]
pub enum Phase {
    /// Play goes on, and the named side is to move.
    AwaitingMove(Player),
    /// Play has ended.
    Terminal(Outcome),
}

impl Position {
    /// Where the game stands: won by `X`, else won by `O`, else drawn on a
    /// full grid, else waiting for the side to move.
    pub open spec fn phase(self) -> Phase {
        if self.won(Player::X) {
            Phase::Terminal(Outcome::XWins)
        } else if self.won(Player::O) {
            Phase::Terminal(Outcome::OWins)
        } else if self.is_full() {
            Phase::Terminal(Outcome::Draw)
        } else {
            Phase::AwaitingMove(self.to_move)
        }
    }
}

impl Board {
    /// Tells where the game stands at the start of a turn.
    pub fn phase(&self) -> (phase: Phase)
        ensures
            phase == self@.phase(),
            phase is Terminal <==> self@.is_over(),
    {
        if self.has_won(Player::X) {
            Phase::Terminal(Outcome::XWins)
        } else if self.has_won(Player::O) {
            Phase::Terminal(Outcome::OWins)
        } else if self.is_full() {
            Phase::Terminal(Outcome::Draw)
        } else {
            Phase::AwaitingMove(self.current_player)
        }
    }

    /// Takes the turn of the side to move by searching for its best move and
    /// playing it. Returns the score found and the move made.
    ///
    /// When the game is over there is no move to make: the board stays as it
    /// is and only the score is reported.
    pub fn play_best_move(&mut self) -> (result: (i32, Option<(usize, usize)>))
        ensures
            result.0 == old(self)@.value(),
            old(self)@.is_over() ==> result.1 is None && *final(self) == *old(self),
            !old(self)@.is_over() ==> (result.1 matches Some(best) && old(
                self,
            )@.is_first_best_move(best.0 as int, best.1 as int) && final(self)@ == old(
                self,
            )@.place(best.0 as int, best.1 as int)),
            old(self)@.balanced() ==> final(self)@.balanced(),
    {
        assert(self@.acting(self.current_player) == self@);
        let (score, best_move) = self.minimax(self.current_player);
        if let Some((row, col)) = best_move {
            self.make_move(row, col).unwrap();
        }
        (score, best_move)
    }
}

/// The position after the attempts in `moves` are made one after another from
/// the start of a game. An attempt at an illegal move changes nothing.
pub open spec fn after_moves(moves: Seq<(int, int)>) -> Position
    decreases moves.len(),
{
    if moves.len() == 0 {
        Position::initial()
    } else {
        after_moves(moves.drop_last()).step(moves.last().0, moves.last().1)
    }
}

/// The position after the attempts in `moves` are made one after another in
/// a game that stops as soon as it is over: attempts made after the end, like
/// attempts at illegal moves, change nothing.
pub open spec fn after_turns(moves: Seq<(int, int)>) -> Position
    decreases moves.len(),
{
    if moves.len() == 0 {
        Position::initial()
    } else {
        let before = after_turns(moves.drop_last());
        if before.is_over() {
            before
        } else {
            before.step(moves.last().0, moves.last().1)
        }
    }
}

/// Some sequence of attempted moves leads from the start of a game to `pos`.
pub open spec fn reachable(pos: Position) -> bool {
    exists|moves: Seq<(int, int)>| after_moves(moves) == pos
}

/// Some sequence of attempted moves leads from the start of a game to `pos`
/// without a move being made after the game is over.
pub open spec fn reachable_in_play(pos: Position) -> bool {
    exists|moves: Seq<(int, int)>| after_turns(moves) == pos
}

/// However the attempts go, the marks of the two sides stay in balance.
proof fn lemma_after_moves_balanced(moves: Seq<(int, int)>)
    ensures
        after_moves(moves).balanced(),
    decreases moves.len(),
{
    if moves.len() > 0 {
        lemma_after_moves_balanced(moves.drop_last());
        lemma_step_keeps_balance(after_moves(moves.drop_last()), moves.last().0, moves.last().1);
    }
}

/// A game that stops when it is over stays within the positions that moves
/// can lead to, and never shows a complete line for both sides.
proof fn lemma_after_turns(moves: Seq<(int, int)>)
    ensures
        reachable(after_turns(moves)),
        after_turns(moves).wf(),
        !(after_turns(moves).won(Player::X) && after_turns(moves).won(Player::O)),
    decreases moves.len(),
{
    if moves.len() == 0 {
        assert(after_moves(moves) == after_turns(moves));
    } else {
        let before = after_turns(moves.drop_last());
        lemma_after_turns(moves.drop_last());
        if !before.is_over() {
            let (row, col) = moves.last();
            let path = choose|path: Seq<(int, int)>| after_moves(path) == before;
            assert(path.push((row, col)).drop_last() =~= path);
            assert(after_moves(path.push((row, col))) == before.step(row, col));
            lemma_step_keeps_lines_of_other_side(before, row, col);
            if before.is_legal(row, col) {
                lemma_place_squares(before, row, col);
            }
        }
    }
}

/// On every position that moves made through the board can lead to, the
/// number of marks of `X` is that of `O` or one more, according to whose turn
/// it is.
pub proof fn lemma_reachable_is_balanced(pos: Position)
    requires
        reachable(pos),
    ensures
        pos.balanced(),
        pos.marks(Player::X) - pos.marks(Player::O) == 0 || pos.marks(Player::X) - pos.marks(
            Player::O,
        ) == 1,
{
    let moves = choose|moves: Seq<(int, int)>| after_moves(moves) == pos;
    lemma_after_moves_balanced(moves);
}

/// A game that stops when it is over visits only positions that moves made
/// through the board can lead to.
pub proof fn lemma_play_is_reachable(pos: Position)
    requires
        reachable_in_play(pos),
    ensures
        reachable(pos),
{
    let moves = choose|moves: Seq<(int, int)>| after_turns(moves) == pos;
    lemma_after_turns(moves);
}

/// In a game that stops when it is over, the two sides never both hold a
/// complete line.
pub proof fn lemma_at_most_one_winner(pos: Position)
    requires
        reachable_in_play(pos),
    ensures
        !(pos.won(Player::X) && pos.won(Player::O)),
{
    let moves = choose|moves: Seq<(int, int)>| after_turns(moves) == pos;
    lemma_after_turns(moves);
}

} // verus!
