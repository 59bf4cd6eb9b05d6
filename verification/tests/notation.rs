use snow_crust::chess_board::notation::symbol_text;
use snow_crust::chess_board::ChessBoard;

fn white_board() -> ChessBoard {
    let mut board = ChessBoard::new();
    board.setup_initial_position();
    board
}

#[test]
fn squares_are_named_for_white() {
    let board = white_board();
    assert_eq!(board.get_piece_location_in_chess_notation(91), "a1");
    assert_eq!(board.get_piece_location_in_chess_notation(98), "h1");
    assert_eq!(board.get_piece_location_in_chess_notation(21), "a8");
    assert_eq!(board.get_piece_location_in_chess_notation(28), "h8");
    assert_eq!(board.get_piece_location_in_chess_notation(65), "e4");
}

#[test]
fn squares_are_named_for_black() {
    let board = white_board().clone_and_rotate();
    assert_eq!(board.get_piece_location_in_chess_notation(91), "h8");
    assert_eq!(board.get_piece_location_in_chess_notation(98), "a8");
    assert_eq!(board.get_piece_location_in_chess_notation(21), "h1");
    assert_eq!(board.get_piece_location_in_chess_notation(28), "a1");
    assert_eq!(board.get_piece_location_in_chess_notation(54), "e4");
}

#[test]
fn names_are_read_for_both_colours() {
    let white = white_board();
    assert_eq!(white.get_piece_index_from_chess_notation("a1".to_string()), 91);
    assert_eq!(white.get_piece_index_from_chess_notation("e4".to_string()), 65);
    assert_eq!(white.get_piece_index_from_chess_notation("h8".to_string()), 28);
    assert_eq!(white.square_index_of('d', '6'), 44);
    let black = white.clone_and_rotate();
    assert_eq!(black.get_piece_index_from_chess_notation("a1".to_string()), 28);
    assert_eq!(black.get_piece_index_from_chess_notation("e4".to_string()), 54);
    assert_eq!(black.get_piece_index_from_chess_notation("h8".to_string()), 91);
    assert_eq!(black.square_index_of('e', '3'), 44);
}

#[test]
fn naming_and_reading_are_inverse() {
    let white = white_board();
    let black = white.clone_and_rotate();
    for board in [&white, &black] {
        for row in 2..10usize {
            for column in 1..9usize {
                let index = row * 10 + column;
                let name = board.get_piece_location_in_chess_notation(index);
                assert_eq!(name.len(), 2);
                assert_eq!(board.get_piece_index_from_chess_notation(name), index);
            }
        }
    }
    for index in [21usize, 35, 54, 98] {
        assert_eq!(
            white.get_piece_location_in_chess_notation(index),
            black.get_piece_location_in_chess_notation(119 - index)
        );
    }
}

#[test]
fn moves_are_notated() {
    let mut white = white_board();
    white.notate_move(85, 65);
    assert_eq!(white.last_move, "e2e4");
    white.notate_move(97, 76);
    assert_eq!(white.last_move, "g1f3");
    let mut black = white_board().clone_and_rotate();
    black.notate_move(84, 64);
    assert_eq!(black.last_move, "e7e5");
}

#[test]
fn symbols_have_their_text() {
    for symbol in ['a', 'b', 'c', 'd', 'e', 'f', 'g', 'h', '1', '2', '3', '4', '5', '6', '7', '8', 'r', 'n', 'q'] {
        assert_eq!(symbol_text(symbol), symbol.to_string());
    }
}
