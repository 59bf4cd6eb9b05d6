use snow_crust::chess_board::evaluation::{
    BISHOP_SQUARE_TABLE, KING_SQUARE_TABLE, KNIGHT_SQUARE_TABLE, PAWN_SQUARE_TABLE,
    QUEEN_SQUARE_TABLE, ROOK_SQUARE_TABLE,
};
use snow_crust::chess_board::{flip_cell, rotate_cells, ChessBoard};

fn board_from(fen: &str) -> ChessBoard {
    let mut board = ChessBoard::new();
    board.build_board_from_fen_string(fen.to_string());
    board
}

fn row(board: &ChessBoard, index: usize) -> String {
    board.board_vector[index * 10..index * 10 + 10].iter().collect()
}

#[test]
fn new_board_is_blank() {
    let board = ChessBoard::new();
    assert!(board.board_vector.is_empty());
    assert!(board.get_current_color());
    assert!(board.get_left_castling());
    assert!(board.get_right_castling());
    assert!(!board.is_en_passant_active());
    assert_eq!(board.get_score(), 0);
    assert_eq!(board.last_move, "");
    assert!(!board.is_well_formed());
}

#[test]
fn from_takes_the_cells() {
    let cells: Vec<char> = vec!['a', '.', 'K'];
    let board = ChessBoard::from(cells.clone());
    assert_eq!(board.board_vector, cells);
    assert!(board.get_current_color());
    assert_eq!(board.get_score(), 0);
    assert_eq!(board.get_square(2), 'K');
}

#[test]
fn initial_position_layout() {
    let mut board = ChessBoard::new();
    board.setup_initial_position();
    assert_eq!(board.board_vector.len(), 120);
    assert_eq!(row(&board, 0), "         \n");
    assert_eq!(row(&board, 2), " rnbqkbnr\n");
    assert_eq!(row(&board, 3), " pppppppp\n");
    assert_eq!(row(&board, 5), " ........\n");
    assert_eq!(row(&board, 8), " PPPPPPPP\n");
    assert_eq!(row(&board, 9), " RNBQKBNR\n");
    assert_eq!(board.get_square(95), 'K');
    assert_eq!(board.get_square(25), 'k');
    assert!(board.is_well_formed());
}

#[test]
fn clone_is_equal_and_independent() {
    let mut board = ChessBoard::new();
    board.setup_initial_position();
    let copy = board.clone();
    board.make_move(85, 65);
    assert_eq!(copy.get_square(85), 'P');
    assert_eq!(copy.get_square(65), '.');
    assert_eq!(copy.get_score(), 0);
    assert_eq!(copy.last_move, "");
    assert_eq!(board.get_square(65), 'P');
}

#[test]
fn flip_cell_swaps_case_and_sentinels() {
    assert_eq!(flip_cell('K'), 'k');
    assert_eq!(flip_cell('q'), 'Q');
    assert_eq!(flip_cell('.'), '.');
    assert_eq!(flip_cell(' '), '\n');
    assert_eq!(flip_cell('\n'), ' ');
    for c in ['P', 'n', 'B', 'r', '.', ' ', '\n', 'x', '7'] {
        assert_eq!(flip_cell(flip_cell(c)), c);
    }
}

#[test]
fn rotation_turns_the_board_and_negates_the_score() {
    let mut board = ChessBoard::new();
    board.setup_initial_position();
    board.make_move(85, 65);
    let turned = board.clone_and_rotate();
    assert!(!turned.get_current_color());
    assert_eq!(turned.get_score(), -50);
    assert_eq!(turned.last_move, "e2e4");
    assert_eq!(turned.board_vector.len(), 120);
    for index in 0..120 {
        assert_eq!(turned.board_vector[index], flip_cell(board.board_vector[119 - index]));
    }
    assert_eq!(row(&turned, 2), " rnbkqbnr\n");
    assert_eq!(row(&turned, 5), " ...p....\n");
    assert_eq!(row(&turned, 9), " RNBKQBNR\n");
    assert!(turned.is_well_formed());
    let back = turned.clone_and_rotate();
    assert_eq!(back.board_vector, board.board_vector);
    assert_eq!(back.get_score(), 50);
    assert!(back.get_current_color());
}

#[test]
fn plain_move_updates_cells_notation_and_score() {
    let mut board = ChessBoard::new();
    board.setup_initial_position();
    board.make_move(85, 65);
    assert_eq!(board.get_square(65), 'P');
    assert_eq!(board.get_square(85), '.');
    assert_eq!(board.last_move, "e2e4");
    assert_eq!(board.get_score(), 50);
    assert_eq!(PAWN_SQUARE_TABLE[65] - PAWN_SQUARE_TABLE[85], 50);
    board.make_move(97, 76);
    assert_eq!(board.last_move, "g1f3");
    assert_eq!(board.get_score(), 50 + KNIGHT_SQUARE_TABLE[76] - KNIGHT_SQUARE_TABLE[97]);
    assert_eq!(board.get_score(), 50 + 10 + 40);
}

#[test]
fn capture_adds_material_and_position_of_the_captured_piece() {
    let mut board = board_from("4k3/8/8/3n4/4P3/8/8/4K3 w - -");
    assert_eq!(board.get_square(65), 'P');
    assert_eq!(board.get_square(54), 'n');
    board.make_move(65, 54);
    assert_eq!(board.get_square(54), 'P');
    assert_eq!(board.get_square(65), '.');
    assert_eq!(board.last_move, "e4d5");
    assert_eq!(board.get_score(), 27 - 25 + 310 + 20);
}

#[test]
fn capture_values_by_piece() {
    let cases = [
        ('p', 100 + PAWN_SQUARE_TABLE[54]),
        ('n', 310 + KNIGHT_SQUARE_TABLE[54]),
        ('b', 370 + BISHOP_SQUARE_TABLE[54]),
        ('r', 500 + ROOK_SQUARE_TABLE[54]),
        ('q', 950 + QUEEN_SQUARE_TABLE[54]),
        ('k', 60000 + KING_SQUARE_TABLE[54]),
    ];
    for (piece, gain) in cases {
        let mut board = board_from("4k3/8/8/8/4P3/8/8/4K3 w - -");
        board.board_vector[54] = piece;
        board.make_move(65, 54);
        assert_eq!(board.get_score(), 27 - 25 + gain);
    }
    assert_eq!(100 + PAWN_SQUARE_TABLE[54], 127);
    assert_eq!(370 + BISHOP_SQUARE_TABLE[54], 380);
    assert_eq!(500 + ROOK_SQUARE_TABLE[54], 500);
    assert_eq!(950 + QUEEN_SQUARE_TABLE[54], 955);
    assert_eq!(60000 + KING_SQUARE_TABLE[54], 59950);
}

#[test]
fn en_passant_move_removes_the_passed_pawn() {
    let mut board = board_from("4k3/8/8/3pP3/8/8/8/4K3 w - d6");
    assert!(board.is_en_passant_active());
    assert_eq!(board.en_passant_square, 44);
    board.make_en_passant_move(55, 44);
    assert_eq!(board.get_square(44), 'P');
    assert_eq!(board.get_square(54), '.');
    assert_eq!(board.get_square(55), '.');
    assert_eq!(board.last_move, "e5d6");
    assert_eq!(board.get_score(), 30 - 27 + 100 + 27);
}

#[test]
fn promotion_replaces_the_pawn_and_marks_the_notation() {
    let mut board = board_from("7k/4P3/8/8/8/8/8/K7 w - -");
    board.make_move(35, 25);
    assert_eq!(board.get_score(), -50);
    board.promote_pawn(25, 'Q');
    assert_eq!(board.get_square(25), 'Q');
    assert_eq!(board.last_move, "e7e8q");
    assert_eq!(board.get_score(), -50 + 950 - 5);
    board.promote_pawn(25, 'N');
    assert_eq!(board.get_square(25), 'N');
    assert_eq!(board.last_move, "e7e8n");
    assert_eq!(board.get_score(), -50 + 950 - 5 + 310 - 30);
}

#[test]
fn promotion_letters() {
    for (piece, letter) in [('R', "r"), ('N', "n"), ('B', "b"), ('Q', "q")] {
        let mut board = board_from("7k/4P3/8/8/8/8/8/K7 w - -");
        board.make_move(35, 25);
        board.promote_pawn(25, piece);
        assert_eq!(board.last_move, format!("e7e8{}", letter));
    }
}

#[test]
fn castling_bonus_is_110() {
    let mut board = ChessBoard::new();
    board.add_castling_bonus();
    assert_eq!(board.get_score(), 110);
}

#[test]
fn castling_rights_follow_the_colour_to_move() {
    let mut board = ChessBoard::new();
    board.setup_initial_position();
    board.set_left_castling(false);
    assert!(!board.get_left_castling());
    assert!(board.get_right_castling());
    let mut turned = board.clone_and_rotate();
    assert!(turned.get_left_castling());
    assert!(turned.get_right_castling());
    turned.set_castling_rights(false, false);
    assert!(!turned.get_left_castling());
    assert!(!turned.get_right_castling());
    let mut back = turned.clone_and_rotate();
    assert!(!back.get_left_castling());
    assert!(back.get_right_castling());
    back.set_right_castling(false);
    assert!(!back.get_right_castling());
    assert!(!back.get_left_castling());
}

#[test]
fn lost_castling_rights_are_never_given_back() {
    let mut board = ChessBoard::new();
    board.setup_initial_position();
    board.set_castling_rights(true, true);
    assert!(board.get_left_castling());
    assert!(board.get_right_castling());
    board.set_left_castling(true);
    board.set_right_castling(true);
    assert!(board.get_left_castling());
    assert!(board.get_right_castling());
    board.set_castling_rights(false, true);
    assert!(!board.get_left_castling());
    assert!(board.get_right_castling());
    board.set_castling_rights(true, true);
    assert!(!board.get_left_castling());
    assert!(board.get_right_castling());
    board.set_left_castling(true);
    assert!(!board.get_left_castling());
    assert!(board.get_right_castling());
    board.set_right_castling(false);
    assert!(!board.get_right_castling());
    board.set_right_castling(true);
    assert!(!board.get_right_castling());
    board.set_castling_rights(true, true);
    assert!(!board.get_left_castling());
    assert!(!board.get_right_castling());
    let mut turned = board.clone_and_rotate();
    assert!(turned.get_left_castling());
    assert!(turned.get_right_castling());
    turned.set_castling_rights(true, false);
    assert!(turned.get_left_castling());
    assert!(!turned.get_right_castling());
    let back = turned.clone_and_rotate();
    assert!(!back.get_left_castling());
    assert!(!back.get_right_castling());
    assert_eq!(back.board_vector, board.board_vector);
    assert_eq!(back.get_score(), board.get_score());
    assert_eq!(back.last_move, board.last_move);
    assert_eq!(back.en_passant_square, board.en_passant_square);
    assert_eq!(back.is_en_passant_active(), board.is_en_passant_active());
}

#[test]
fn en_passant_target_lives_two_decrements() {
    let mut board = ChessBoard::new();
    board.setup_initial_position();
    assert!(!board.is_en_passant_active());
    board.decrease_en_passant_lifetime();
    assert!(!board.is_en_passant_active());
    board.set_en_passant_square(44);
    assert_eq!(board.en_passant_square, 44);
    assert!(board.is_en_passant_active());
    board.decrease_en_passant_lifetime();
    assert!(board.is_en_passant_active());
    board.decrease_en_passant_lifetime();
    assert!(!board.is_en_passant_active());
    board.decrease_en_passant_lifetime();
    assert!(!board.is_en_passant_active());
}

#[test]
fn well_formedness_is_checked() {
    let mut board = ChessBoard::new();
    board.setup_initial_position();
    assert!(board.is_well_formed());
    let mut piece_on_border = board.clone();
    piece_on_border.board_vector[5] = 'Q';
    assert!(!piece_on_border.is_well_formed());
    let mut stranger = board.clone();
    stranger.board_vector[55] = 'x';
    assert!(!stranger.is_well_formed());
    let mut short = board.clone();
    short.board_vector.pop();
    assert!(!short.is_well_formed());
    let mut target_without_pawn = board.clone();
    target_without_pawn.set_en_passant_square(44);
    assert!(!target_without_pawn.is_well_formed());
    let mut border_inside = board.clone();
    border_inside.board_vector[55] = ' ';
    assert!(!border_inside.is_well_formed());
    let with_target = board_from("4k3/8/8/3pP3/8/8/8/4K3 w - d6");
    assert!(with_target.is_well_formed());
}

#[test]
fn rotating_in_place_is_rotating_a_copy() {
    let mut board = board_from("r3k2r/Pppp1ppp/1b3nbN/nP6/BBP1P3/q4N2/Pp1P2PP/R2Q1RK1 w kq - 0 1");
    board.make_move(96, 97);
    let copy = board.clone_and_rotate();
    let turned = board.rotate();
    assert_eq!(turned.board_vector, copy.board_vector);
    assert_eq!(turned.get_score(), copy.get_score());
    assert_eq!(turned.get_current_color(), copy.get_current_color());
    assert_eq!(turned.last_move, copy.last_move);
    let mut odd: Vec<char> = vec!['a', '.', 'B'];
    rotate_cells(&mut odd);
    assert_eq!(odd, vec!['b', '.', 'A']);
    let mut none: Vec<char> = Vec::new();
    rotate_cells(&mut none);
    assert!(none.is_empty());
}

#[test]
fn copy_for_a_move_ages_the_target_and_drops_the_notation() {
    let mut board = board_from("4k3/8/8/3pP3/8/8/8/4K3 w - d6");
    board.notate_move(55, 45);
    let copy = board.copy_for_move();
    assert_eq!(copy.last_move, "");
    assert_eq!(copy.board_vector, board.board_vector);
    assert_eq!(copy.en_passant_square, 44);
    assert!(board.is_en_passant_active());
    assert!(board.is_en_passant_open_on(44));
    assert!(!board.is_en_passant_open_on(45));
    assert!(copy.is_en_passant_active());
    assert!(!copy.is_en_passant_open_on(44));
    assert!(!copy.copy_for_move().is_en_passant_active());
    assert!(!copy.copy_for_move().copy_for_move().is_en_passant_active());
    assert_eq!(copy.get_last_move(), "");
    assert_eq!(board.get_last_move(), "e5e6");
    assert_eq!(copy.get_score(), board.get_score());
}

#[test]
fn moves_keep_the_grid_well_formed() {
    let mut board = board_from("r3k2r/Pppp1ppp/1b3nbN/nP6/BBP1P3/q4N2/Pp1P2PP/R2Q1RK1 w kq - 0 1");
    assert!(board.is_well_formed());
    board.make_move(31, 21);
    assert!(board.is_well_formed());
    board.promote_pawn(21, 'Q');
    assert!(board.is_well_formed());
    assert_eq!(board.get_square(21), 'Q');
    let mut board = board_from("4k3/8/8/3pP3/8/8/8/4K3 w - d6").copy_for_move();
    board.make_en_passant_move(55, 44);
    assert!(board.is_well_formed());
    for index in 0..120 {
        let cell = board.get_square(index);
        let playing = 21 <= index && index <= 98 && index % 10 != 0 && index % 10 != 9;
        assert_eq!(cell == ' ' || cell == '\n', !playing);
    }
}
