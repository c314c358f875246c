use tictactoe::{Board, Cell, Outcome, Phase, Player};

const X: Cell = Cell::Occupied(Player::X);
const O: Cell = Cell::Occupied(Player::O);
const E: Cell = Cell::Empty;

#[test]
fn game_starts_with_x_to_move() {
    assert_eq!(Board::new().phase(), Phase::AwaitingMove(Player::X));
}

#[test]
fn turn_passes_after_an_accepted_move_only() {
    let mut board = Board::new();
    assert!(board.make_move(1, 1).is_ok());
    assert_eq!(board.phase(), Phase::AwaitingMove(Player::O));
    assert!(board.make_move(1, 1).is_err());
    assert_eq!(board.phase(), Phase::AwaitingMove(Player::O));
    assert!(board.make_move(0, 0).is_ok());
    assert_eq!(board.phase(), Phase::AwaitingMove(Player::X));
}

#[test]
fn phase_of_finished_games() {
    let x_won = Board { cells: [[X, X, X], [O, O, E], [E, E, E]], current_player: Player::O };
    assert_eq!(x_won.phase(), Phase::Terminal(Outcome::XWins));
    let o_won = Board { cells: [[X, X, E], [O, O, O], [X, E, E]], current_player: Player::X };
    assert_eq!(o_won.phase(), Phase::Terminal(Outcome::OWins));
    let drawn = Board { cells: [[X, O, X], [X, O, O], [O, X, X]], current_player: Player::O };
    assert_eq!(drawn.phase(), Phase::Terminal(Outcome::Draw));
}

#[test]
fn full_board_with_a_line_is_a_win() {
    let board = Board { cells: [[X, O, X], [O, X, O], [O, X, X]], current_player: Player::O };
    assert!(board.is_full());
    assert_eq!(board.phase(), Phase::Terminal(Outcome::XWins));
}

#[test]
fn win_for_x_is_announced_before_one_for_o() {
    let board = Board { cells: [[X, X, X], [O, O, O], [E, E, E]], current_player: Player::X };
    assert_eq!(board.phase(), Phase::Terminal(Outcome::XWins));
}

#[test]
fn banners() {
    assert_eq!(Outcome::XWins.banner(), "X wins");
    assert_eq!(Outcome::OWins.banner(), "O wins");
    assert_eq!(Outcome::Draw.banner(), "Draw");
}

#[test]
fn best_move_is_played_for_the_side_to_move() {
    let mut board = Board::new();
    assert!(board.make_move(0, 0).is_ok());
    assert!(board.make_move(0, 2).is_ok());
    assert!(board.make_move(1, 1).is_ok());
    let before = board;
    assert_eq!(board.play_best_move(), (0, Some((2, 2))));
    assert_eq!(board.cells, [[X, E, O], [E, X, E], [E, E, O]]);
    assert_eq!(board.current_player, Player::X);
    assert_eq!(before.minimax(Player::O), (0, Some((2, 2))));
}

#[test]
fn best_move_wins_when_it_can() {
    let mut board = Board { cells: [[X, X, E], [E, O, E], [E, E, E]], current_player: Player::X };
    assert_eq!(board.play_best_move(), (1, Some((0, 2))));
    assert_eq!(board.cells, [[X, X, X], [E, O, E], [E, E, E]]);
    assert_eq!(board.current_player, Player::O);
    assert_eq!(board.phase(), Phase::Terminal(Outcome::XWins));
}

#[test]
fn nothing_is_played_once_the_game_is_over() {
    let mut drawn = Board { cells: [[X, O, X], [X, O, O], [O, X, X]], current_player: Player::O };
    let before = drawn;
    assert_eq!(drawn.play_best_move(), (0, None));
    assert_eq!(drawn, before);
    let mut won = Board { cells: [[X, X, X], [O, O, E], [E, E, E]], current_player: Player::O };
    let before = won;
    assert_eq!(won.play_best_move(), (1, None));
    assert_eq!(won, before);
}

#[test]
fn two_perfect_players_draw() {
    let mut board = Board::new();
    let mut played = Vec::new();
    while let Phase::AwaitingMove(player) = board.phase() {
        assert_eq!(player, board.current_player);
        let (score, best_move) = board.play_best_move();
        assert_eq!(score, 0);
        played.push(best_move.unwrap());
        assert!(!(board.has_won(Player::X) && board.has_won(Player::O)));
    }
    assert_eq!(
        played,
        vec![(0, 0), (1, 1), (0, 1), (0, 2), (2, 0), (1, 0), (1, 2), (2, 1), (2, 2)]
    );
    assert_eq!(board.cells, [[X, X, O], [O, O, X], [X, O, X]]);
    assert_eq!(board.phase(), Phase::Terminal(Outcome::Draw));
}

#[test]
fn perfect_o_never_loses_to_any_line_of_play() {
    fn explore(board: Board) {
        match board.phase() {
            Phase::Terminal(outcome) => assert_ne!(outcome, Outcome::XWins),
            Phase::AwaitingMove(Player::X) => {
                for (row, col) in board.legal_moves() {
                    let mut next = board;
                    assert!(next.make_move(row, col).is_ok());
                    explore(next);
                }
            }
            Phase::AwaitingMove(Player::O) => {
                let mut next = board;
                let (score, best_move) = next.play_best_move();
                assert!(score <= 0);
                assert!(best_move.is_some());
                assert!(!(next.has_won(Player::X) && next.has_won(Player::O)));
                explore(next);
            }
        }
    }
    explore(Board::new());
}
