use snow_crust::chess_board::ChessBoard;

fn text(characters: Vec<char>) -> String {
    characters.into_iter().collect()
}

#[test]
fn symbols_depend_on_the_point_of_view() {
    let board = ChessBoard::new();
    let pairs = [
        ('K', '♔', '♚'),
        ('Q', '♕', '♛'),
        ('R', '♖', '♜'),
        ('B', '♗', '♝'),
        ('N', '♘', '♞'),
        ('P', '♙', '♟'),
        ('k', '♚', '♔'),
        ('q', '♛', '♕'),
        ('r', '♜', '♖'),
        ('b', '♝', '♗'),
        ('n', '♞', '♘'),
        ('p', '♟', '♙'),
        ('.', '.', '.'),
        (' ', ' ', ' '),
        ('\n', '\n', '\n'),
        ('x', 'x', 'x'),
    ];
    for (letter, white, black) in pairs {
        assert_eq!(board.match_letter_to_unicode_chess_symbol(letter, true), white);
        assert_eq!(board.match_letter_to_unicode_chess_symbol(letter, false), black);
    }
}

#[test]
fn board_is_shown_from_whites_side() {
    let mut board = ChessBoard::new();
    board.setup_initial_position();
    let mut expected = String::new();
    expected += "                   \n ";
    expected += "                   \n ";
    expected += "   a b c d e f g h \n ";
    expected += "8  r n b q k b n r \n ";
    expected += "7  p p p p p p p p \n ";
    expected += "6  . . . . . . . . \n ";
    expected += "5  . . . . . . . . \n ";
    expected += "4  . . . . . . . . \n ";
    expected += "3  . . . . . . . . \n ";
    expected += "2  P P P P P P P P \n ";
    expected += "1  R N B Q K B N R \n ";
    expected += "   a b c d e f g h \n ";
    expected += "                   \n ";
    expected += "                   \n ";
    assert_eq!(text(board.print_board_from_white_perspective(false)), expected);
    assert_eq!(text(board.print_board_from_current_color_perspective(false)), expected);
    assert_eq!(text(board.print_board(true, false)), expected);
    let turned = board.clone_and_rotate();
    let shown = text(turned.print_board_from_white_perspective(false));
    assert!(shown.contains("8  r n b q k b n r"));
    assert!(shown.contains("1  R N B Q K B N R"));
}

#[test]
fn board_is_shown_from_blacks_side() {
    let mut board = ChessBoard::new();
    board.setup_initial_position();
    let shown = text(board.print_board_from_black_perspective(false));
    assert!(shown.contains("   h g f e d c b a "));
    assert!(shown.contains("1  r n b k q b n r"));
    assert!(shown.contains("8  R N B K Q B N R"));
    let shown = text(board.print_board_from_black_perspective(true));
    assert!(shown.contains("1  ♖ ♘ ♗ ♔ ♕ ♗ ♘ ♖"));
    assert!(shown.contains("8  ♜ ♞ ♝ ♚ ♛ ♝ ♞ ♜"));
    let shown = text(board.print_board_from_white_perspective(true));
    assert!(shown.contains("8  ♜ ♞ ♝ ♛ ♚ ♝ ♞ ♜"));
    assert!(shown.contains("1  ♖ ♘ ♗ ♕ ♔ ♗ ♘ ♖"));
}

#[test]
fn last_move_lines() {
    let mut board = ChessBoard::new();
    board.setup_initial_position();
    assert_eq!(board.print_last_move(), None);
    assert_eq!(board.print_last_move_with_moving_side_info(), None);
    board.make_move(85, 65);
    let turned = board.clone_and_rotate();
    assert_eq!(turned.print_last_move(), Some("e2e4".to_string()));
    assert_eq!(
        turned.print_last_move_with_moving_side_info(),
        Some("White moves: e2e4".to_string())
    );
    let back = turned.clone_and_rotate();
    assert_eq!(
        back.print_last_move_with_moving_side_info(),
        Some("Black moves: e2e4".to_string())
    );
}
