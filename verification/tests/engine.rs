use tictactoe::board::Board;
use tictactoe::game::{InvalidMoveError, TicTacToe};
use tictactoe::player::Player;
use tictactoe::position::GameState;

const LINES: [[usize; 3]; 8] = [
    [0, 1, 2],
    [3, 4, 5],
    [6, 7, 8],
    [0, 3, 6],
    [1, 4, 7],
    [2, 5, 8],
    [0, 4, 8],
    [2, 4, 6],
];

fn taken(board: &Board) -> usize {
    board.0.iter().filter(|cell| cell.is_some()).count()
}

fn played(moves: &[usize]) -> TicTacToe {
    let mut game = TicTacToe::new();
    for &space in moves {
        assert_eq!(game.play(space), Ok(()));
    }
    game
}

/// Moves that give Cross the three cells of `line` and Circle two cells off
/// it: Cross moves first, third and fifth.
fn moves_completing(line: [usize; 3]) -> Vec<usize> {
    let spare: Vec<usize> = (0..9).filter(|space| !line.contains(space)).collect();
    vec![line[0], spare[0], line[1], spare[1], line[2]]
}

#[test]
fn new_game_is_empty_and_cross_moves_first() {
    let game = TicTacToe::new();
    assert_eq!(game.board().0, [None; 9]);
    assert_eq!(game.current_player(), Player::Cross);
    assert_eq!(game.get_state(), GameState::Ongoing);
    assert!(!game.is_win(Player::Cross));
    assert!(!game.is_win(Player::Circle));
}

#[test]
fn opponent_is_the_other_marker() {
    assert_eq!(Player::Cross.opponent(), Player::Circle);
    assert_eq!(Player::Circle.opponent(), Player::Cross);
}

#[test]
fn empty_board_holds_nothing() {
    assert_eq!(Board::empty().0, [None; 9]);
}

#[test]
fn each_legal_move_takes_one_more_cell() {
    let order = [4, 0, 8, 2, 1, 7, 3, 5, 6];
    let mut game = TicTacToe::new();
    for (k, &space) in order.iter().enumerate() {
        assert_eq!(taken(game.board()), k);
        assert_eq!(game.play(space), Ok(()));
        assert_eq!(taken(game.board()), k + 1);
    }
    assert_eq!(taken(game.board()), 9);
}

#[test]
fn a_marker_stays_where_it_was_put() {
    let order = [4, 0, 8, 2, 1, 7, 3, 5, 6];
    let mut game = TicTacToe::new();
    for &space in order.iter() {
        assert_eq!(game.play(space), Ok(()));
    }
    for (k, &space) in order.iter().enumerate() {
        let owner = if k % 2 == 0 { Player::Cross } else { Player::Circle };
        assert_eq!(game.board().0[space], Some(owner));
    }
}

#[test]
fn move_marks_the_cell_for_the_player_to_move() {
    let mut game = TicTacToe::new();
    assert_eq!(game.play(7), Ok(()));
    let mut expected = [None; 9];
    expected[7] = Some(Player::Cross);
    assert_eq!(game.board().0, expected);
    assert_eq!(game.play(2), Ok(()));
    expected[2] = Some(Player::Circle);
    assert_eq!(game.board().0, expected);
}

#[test]
fn turns_alternate_after_each_legal_move() {
    let mut game = TicTacToe::new();
    let mut expected = Player::Cross;
    for space in 0..9 {
        assert_eq!(game.current_player(), expected);
        assert_eq!(game.play(space), Ok(()));
        expected = expected.opponent();
        assert_eq!(game.current_player(), expected);
    }
}

#[test]
fn taken_cell_is_rejected_and_nothing_changes() {
    let mut game = played(&[0, 4, 8]);
    let cells = game.board().0;
    let turn = game.current_player();
    for space in [0, 4, 8] {
        assert_eq!(game.play(space), Err(InvalidMoveError));
        assert_eq!(game.board().0, cells);
        assert_eq!(game.current_player(), turn);
    }
}

#[test]
fn position_off_the_board_is_rejected_and_nothing_changes() {
    let mut game = played(&[3]);
    let cells = game.board().0;
    for space in [9, 10, 100, usize::MAX] {
        assert_eq!(game.play(space), Err(InvalidMoveError));
        assert_eq!(game.board().0, cells);
        assert_eq!(game.current_player(), Player::Circle);
    }
}

#[test]
fn last_cell_of_the_board_can_be_played() {
    let mut game = TicTacToe::new();
    assert_eq!(game.play(8), Ok(()));
    assert_eq!(game.board().0[8], Some(Player::Cross));
}

#[test]
fn rejected_move_does_not_pass_the_turn() {
    let mut game = TicTacToe::new();
    assert_eq!(game.play(9), Err(InvalidMoveError));
    assert_eq!(game.current_player(), Player::Cross);
    assert_eq!(game.play(0), Ok(()));
    assert_eq!(game.board().0[0], Some(Player::Cross));
}

#[test]
fn same_cell_twice_succeeds_then_fails() {
    let mut game = TicTacToe::new();
    assert_eq!(game.play(0), Ok(()));
    assert_eq!(game.play(0), Err(InvalidMoveError));
}

#[test]
fn state_is_the_same_when_asked_again() {
    for moves in [vec![], vec![4], vec![0, 1, 3, 4, 6], vec![0, 1, 2, 4, 3, 5, 7, 6, 8]] {
        let game = played(&moves);
        let first = game.get_state();
        assert_eq!(game.get_state(), first);
        assert_eq!(game.get_state(), first);
    }
}

#[test]
fn cross_wins_on_each_line() {
    for line in LINES {
        let game = played(&moves_completing(line));
        assert!(game.is_win(Player::Cross), "line {:?}", line);
        assert!(!game.is_win(Player::Circle), "line {:?}", line);
        assert_eq!(game.get_state(), GameState::Winner(Player::Cross), "line {:?}", line);
    }
}

#[test]
fn circle_wins_on_each_line() {
    for line in LINES {
        let mut moves = Vec::new();
        // Cross takes three cells off the line that complete nothing.
        let cross: Vec<usize> = match line {
            [0, 1, 2] => vec![3, 4, 8],
            [3, 4, 5] => vec![0, 1, 8],
            [6, 7, 8] => vec![0, 1, 5],
            [0, 3, 6] => vec![1, 2, 4],
            [1, 4, 7] => vec![0, 2, 3],
            [2, 5, 8] => vec![0, 1, 4],
            [0, 4, 8] => vec![1, 2, 3],
            _ => vec![0, 1, 5],
        };
        assert!(cross.iter().all(|space| !line.contains(space)));
        for k in 0..3 {
            moves.push(cross[k]);
            moves.push(line[k]);
        }
        let game = played(&moves);
        assert!(game.is_win(Player::Circle), "line {:?}", line);
        assert!(!game.is_win(Player::Cross), "line {:?}", line);
        assert_eq!(game.get_state(), GameState::Winner(Player::Circle), "line {:?}", line);
    }
}

#[test]
fn two_in_a_line_is_no_win() {
    let game = played(&[0, 3, 1, 4]);
    assert!(!game.is_win(Player::Cross));
    assert!(!game.is_win(Player::Circle));
    assert_eq!(game.get_state(), GameState::Ongoing);
}

#[test]
fn line_of_mixed_markers_is_no_win() {
    let game = played(&[0, 1, 2]);
    assert!(!game.is_win(Player::Cross));
    assert!(!game.is_win(Player::Circle));
    assert_eq!(game.get_state(), GameState::Ongoing);
}

#[test]
fn cross_completes_first_column() {
    let mut game = TicTacToe::new();
    assert_eq!(game.play(0), Ok(()));
    assert_eq!(game.play(1), Ok(()));
    assert_eq!(game.play(3), Ok(()));
    assert_eq!(game.play(4), Ok(()));
    assert_eq!(game.get_state(), GameState::Ongoing);
    assert_eq!(game.play(6), Ok(()));
    assert_eq!(game.get_state(), GameState::Winner(Player::Cross));
    assert_eq!(game.board().0[0], Some(Player::Cross));
    assert_eq!(game.board().0[3], Some(Player::Cross));
    assert_eq!(game.board().0[6], Some(Player::Cross));
    assert_eq!(game.board().0[1], Some(Player::Circle));
    assert_eq!(game.board().0[4], Some(Player::Circle));
}

#[test]
fn full_board_without_a_line_is_a_draw() {
    // X O X
    // X O O
    // O X X
    let game = played(&[0, 1, 2, 4, 3, 5, 7, 6, 8]);
    assert_eq!(taken(game.board()), 9);
    assert!(!game.is_win(Player::Cross));
    assert!(!game.is_win(Player::Circle));
    assert_eq!(game.get_state(), GameState::Draw);
}

#[test]
fn full_board_with_the_cross_diagonal_is_won_by_cross() {
    // Cross on 0, 4, 5, 7, 8 and Circle on 1, 2, 3, 6: the board is full,
    // and Cross owns the diagonal 0, 4, 8.
    let game = played(&[0, 1, 4, 2, 5, 3, 7, 6, 8]);
    let x = Some(Player::Cross);
    let o = Some(Player::Circle);
    assert_eq!(game.board().0, [x, o, o, o, x, x, o, x, x]);
    assert!(game.is_win(Player::Cross));
    assert!(!game.is_win(Player::Circle));
    assert_eq!(game.get_state(), GameState::Winner(Player::Cross));
}

#[test]
fn board_one_cell_short_of_full_is_ongoing() {
    let game = played(&[0, 1, 2, 4, 3, 5, 7, 6]);
    assert_eq!(game.get_state(), GameState::Ongoing);
}

#[test]
fn cross_is_reported_when_both_own_a_line() {
    // Cross completes the top row; play goes on and Circle completes the
    // middle row.
    let game = played(&[0, 3, 1, 4, 2, 5]);
    assert!(game.is_win(Player::Cross));
    assert!(game.is_win(Player::Circle));
    assert_eq!(game.get_state(), GameState::Winner(Player::Cross));
}

#[test]
fn win_on_the_last_cell_is_no_draw() {
    // X O X
    // O O X
    // O X X  with the last move on 8 completing the right column.
    let game = played(&[0, 1, 2, 3, 5, 4, 7, 6, 8]);
    assert_eq!(taken(game.board()), 9);
    assert_eq!(game.get_state(), GameState::Winner(Player::Cross));
}

#[test]
fn moves_are_still_taken_after_a_win() {
    let mut game = played(&[0, 3, 1, 4, 2]);
    assert_eq!(game.get_state(), GameState::Winner(Player::Cross));
    assert_eq!(game.play(8), Ok(()));
    assert_eq!(game.board().0[8], Some(Player::Circle));
    assert_eq!(game.get_state(), GameState::Winner(Player::Cross));
}
