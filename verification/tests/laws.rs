use snow_crust::chess_board::evaluation::{
    BISHOP_SQUARE_TABLE, KING_SQUARE_TABLE, KNIGHT_SQUARE_TABLE, PAWN_SQUARE_TABLE,
    QUEEN_SQUARE_TABLE, ROOK_SQUARE_TABLE,
};
use snow_crust::chess_board::ChessBoard;
use snow_crust::move_generator::MoveGenerator;

fn table_value(piece: char, index: usize) -> i64 {
    match piece.to_ascii_uppercase() {
        'P' => PAWN_SQUARE_TABLE[index],
        'N' => KNIGHT_SQUARE_TABLE[index],
        'B' => BISHOP_SQUARE_TABLE[index],
        'R' => ROOK_SQUARE_TABLE[index],
        'Q' => QUEEN_SQUARE_TABLE[index],
        'K' => KING_SQUARE_TABLE[index],
        _ => 0,
    }
}

fn material(piece: char) -> i64 {
    match piece.to_ascii_uppercase() {
        'P' => 100,
        'N' => 310,
        'B' => 370,
        'R' => 500,
        'Q' => 950,
        'K' => 60000,
        _ => 0,
    }
}

fn static_value(board: &ChessBoard) -> i64 {
    let mut value = 0;
    for (index, &cell) in board.board_vector.iter().enumerate() {
        if cell.is_ascii_uppercase() {
            value += material(cell) + table_value(cell, index);
        } else if cell.is_ascii_lowercase() {
            value -= material(cell) + table_value(cell, 119 - index);
        }
    }
    value
}

#[test]
fn tables_stay_within_fifty() {
    for index in 0..120 {
        for piece in ['P', 'N', 'B', 'R', 'Q', 'K'] {
            let value = table_value(piece, index);
            assert!(-50 <= value && value <= 50);
        }
    }
    assert_eq!(PAWN_SQUARE_TABLE[31], 50);
    assert_eq!(KNIGHT_SQUARE_TABLE[21], -50);
    assert_eq!(KING_SQUARE_TABLE[92], 30);
}

#[test]
fn score_follows_the_static_value_over_quiet_moves() {
    let generator = MoveGenerator::new();
    let mut board = ChessBoard::new();
    board.setup_initial_position();
    assert_eq!(static_value(&board), 0);
    assert_eq!(board.get_score(), 0);
    for notation in ["e2e4", "e7e5", "g1f3", "b8c6", "f1c4", "f8c5", "d2d3", "g8f6"] {
        let moves = generator.generate_next_moves_from_board(&board);
        board = moves.iter().find(|next| next.last_move == notation).unwrap().clone();
        assert_eq!(board.get_score(), static_value(&board), "{}", notation);
    }
    assert_eq!(board.get_score(), 175 - 200);
}

#[test]
fn score_leaves_the_static_value_over_a_promotion() {
    let mut board = ChessBoard::new();
    board.build_board_from_fen_string("7k/4P3/8/8/8/8/8/K7 w - -".to_string());
    let offset = board.get_score() - static_value(&board);
    board.make_move(35, 25);
    assert_eq!(board.get_score() - static_value(&board), offset);
    board.promote_pawn(25, 'Q');
    assert_eq!(board.get_score() - static_value(&board), offset + 100);
}

#[test]
fn rotation_negates_the_static_value() {
    let mut board = ChessBoard::new();
    board.setup_position_4();
    let turned = board.clone_and_rotate();
    assert_eq!(static_value(&turned), -static_value(&board));
}
