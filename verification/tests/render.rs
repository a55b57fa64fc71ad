use tictactoe::board::Board;
use tictactoe::game::TicTacToe;
use tictactoe::player::Player;

#[test]
fn empty_cell_shows_its_number() {
    let board = Board::empty();
    let shown: Vec<&str> = (0..9).map(|index| board.get_identifier(index)).collect();
    assert_eq!(shown, vec!["0", "1", "2", "3", "4", "5", "6", "7", "8"]);
}

#[test]
fn taken_cell_shows_its_marker() {
    let mut cells = [None; 9];
    cells[2] = Some(Player::Cross);
    cells[6] = Some(Player::Circle);
    let board = Board(cells);
    assert_eq!(board.get_identifier(2), "X");
    assert_eq!(board.get_identifier(6), "O");
    assert_eq!(board.get_identifier(0), "0");
    assert_eq!(board.get_identifier(8), "8");
}

#[test]
fn empty_board_is_drawn_with_its_numbers() {
    let text = Board::empty().render();
    assert_eq!(text, " 0 | 1 | 2 \n-----------\n 3 | 4 | 5 \n-----------\n 6 | 7 | 8 ");
}

#[test]
fn board_in_play_is_drawn_with_markers_and_numbers() {
    let mut game = TicTacToe::new();
    for space in [0, 1, 3, 4, 6] {
        assert_eq!(game.play(space), Ok(()));
    }
    let text = game.board().render();
    assert_eq!(text, " X | O | 2 \n-----------\n X | O | 5 \n-----------\n X | 7 | 8 ");
}

#[test]
fn full_board_is_drawn_with_markers_only() {
    let x = Some(Player::Cross);
    let o = Some(Player::Circle);
    let text = Board([x, o, x, x, o, o, o, x, x]).render();
    assert_eq!(text, " X | O | X \n-----------\n X | O | O \n-----------\n O | X | X ");
}

#[test]
fn drawing_has_three_rows_of_eleven_characters() {
    let text = Board::empty().render();
    let rows: Vec<&str> = text.split('\n').collect();
    assert_eq!(rows.len(), 5);
    for row in rows {
        assert_eq!(row.chars().count(), 11);
    }
}
