use snow_crust::chess_board::fen::{characters_of, is_valid_fen, split_text};
use snow_crust::chess_board::ChessBoard;

const START: &str = "rnbqkbnr/pppppppp/8/8/8/8/PPPPPPPP/RNBQKBNR w KQkq - 0 1";

fn board_from(fen: &str) -> ChessBoard {
    let mut board = ChessBoard::new();
    board.build_board_from_fen_string(fen.to_string());
    board
}

#[test]
fn text_is_split_at_every_separator() {
    let split = |text: &str| -> Vec<String> {
        split_text(&characters_of(text), ' ').iter().map(|piece| piece.iter().collect()).collect()
    };
    assert_eq!(split(""), vec![""]);
    assert_eq!(split("a"), vec!["a"]);
    assert_eq!(split("a b"), vec!["a", "b"]);
    assert_eq!(split("a  b "), vec!["a", "", "b", ""]);
    assert_eq!(split(" w"), vec!["", "w"]);
    assert_eq!(characters_of("e2e4"), vec!['e', '2', 'e', '4']);
}

#[test]
fn start_description_gives_the_initial_position() {
    assert!(is_valid_fen(START));
    let built = board_from(START);
    let mut set_up = ChessBoard::new();
    set_up.setup_initial_position();
    assert_eq!(built.board_vector, set_up.board_vector);
    assert!(built.get_current_color());
    assert!(built.get_left_castling());
    assert!(built.get_right_castling());
    assert!(!built.is_en_passant_active());
    assert_eq!(built.get_score(), 0);
    assert_eq!(built.last_move, "");
    let turned = built.clone_and_rotate();
    assert!(turned.get_left_castling());
    assert!(turned.get_right_castling());
}

#[test]
fn known_positions_match_their_descriptions() {
    let descriptions = [
        "r3k2r/p1ppqpb1/bn2pnp1/3PN3/1p2P3/2N2Q1p/PPPBBPPP/R3K2R w KQkq -",
        "8/2p5/3p4/KP5r/1R3p1k/8/4P1P1/8 w - -",
        "r3k2r/Pppp1ppp/1b3nbN/nP6/BBP1P3/q4N2/Pp1P2PP/R2Q1RK1 w kq - 0 1",
        "rnbq1k1r/pp1Pbppp/2p5/8/2B5/8/PPP1NnPP/RNBQK2R w KQ - 1 8",
        "r4rk1/1pp1qppp/p1np1n2/2b1p1B1/2B1P1b1/P1NP1N2/1PP1QPPP/R4RK1 w - - 0 10",
    ];
    let mut set_up: Vec<ChessBoard> = Vec::new();
    for _ in 0..5 {
        set_up.push(ChessBoard::new());
    }
    set_up[0].setup_position_2();
    set_up[1].setup_position_3();
    set_up[2].setup_position_4();
    set_up[3].setup_position_5();
    set_up[4].setup_position_6();
    for (description, expected) in descriptions.iter().zip(set_up.iter()) {
        assert!(is_valid_fen(description));
        let built = board_from(description);
        assert_eq!(built.board_vector, expected.board_vector);
        assert_eq!(built.get_left_castling(), expected.get_left_castling());
        assert_eq!(built.get_right_castling(), expected.get_right_castling());
        let built_turned = built.clone_and_rotate();
        let expected_turned = expected.clone_and_rotate();
        assert_eq!(built_turned.get_left_castling(), expected_turned.get_left_castling());
        assert_eq!(built_turned.get_right_castling(), expected_turned.get_right_castling());
        assert_eq!(built.get_current_color(), expected.get_current_color());
        assert_eq!(built.is_en_passant_active(), expected.is_en_passant_active());
    }
}

#[test]
fn black_to_move_is_stored_from_blacks_side() {
    let white = board_from("4k3/8/8/8/8/8/4P3/4K3 w - -");
    let black = board_from("4k3/8/8/8/8/8/4P3/4K3 b - -");
    assert!(!black.get_current_color());
    assert_eq!(black.board_vector, white.clone_and_rotate().board_vector);
    assert_eq!(black.get_square(94), 'K');
    assert_eq!(black.get_square(24), 'k');
    assert_eq!(black.get_square(34), 'p');
}

#[test]
fn castling_field_sets_each_right() {
    let board = board_from("r3k2r/8/8/8/8/8/8/R3K2R w Kq -");
    assert!(!board.get_left_castling());
    assert!(board.get_right_castling());
    let turned = board.clone_and_rotate();
    assert!(!turned.get_left_castling());
    assert!(turned.get_right_castling());
    let board = board_from("r3k2r/8/8/8/8/8/8/R3K2R w Qk -");
    assert!(board.get_left_castling());
    assert!(!board.get_right_castling());
    let turned = board.clone_and_rotate();
    assert!(turned.get_left_castling());
    assert!(!turned.get_right_castling());
    let board = board_from("r3k2r/8/8/8/8/8/8/R3K2R b - -");
    assert!(!board.get_left_castling());
    assert!(!board.get_right_castling());
}

#[test]
fn en_passant_field_is_read_for_the_colour_to_move() {
    let white = board_from("4k3/8/8/3pP3/8/8/8/4K3 w - d6");
    assert!(white.is_en_passant_active());
    assert_eq!(white.en_passant_square, 44);
    let black = board_from("4k3/8/8/8/4Pp2/8/8/4K3 b - e3");
    assert!(black.is_en_passant_active());
    assert_eq!(black.en_passant_square, 44);
    assert_eq!(black.get_square(54), 'p');
    assert_eq!(black.get_square(53), 'P');
    let none = board_from("4k3/8/8/8/4Pp2/8/8/4K3 b - -");
    assert!(!none.is_en_passant_active());
}

#[test]
fn building_again_starts_afresh() {
    let mut board = board_from("4k3/8/8/3pP3/8/8/8/4K3 w - d6");
    board.make_en_passant_move(55, 44);
    assert_eq!(board.get_score(), 130);
    board.build_board_from_fen_string("4k3/8/8/8/8/8/8/4K3 b - -".to_string());
    assert_eq!(board.get_score(), 0);
    assert_eq!(board.last_move, "");
    assert!(!board.is_en_passant_active());
    assert!(!board.get_current_color());
}

#[test]
fn malformed_descriptions_are_told_apart() {
    assert!(is_valid_fen("4k3/8/8/8/8/8/8/4K3 w - -"));
    assert!(is_valid_fen("4k3/8/8/8/8/8/8/4K3 b KQkq e3 0 1"));
    assert!(!is_valid_fen(""));
    assert!(!is_valid_fen("4k3/8/8/8/8/8/8/4K3 w -"));
    assert!(!is_valid_fen("4k3/8/8/8/8/8/8/4K3 x - -"));
    assert!(!is_valid_fen("4k3/8/8/8/8/8/8/4K3 W - -"));
    assert!(!is_valid_fen("4k3/8/8/8/8/8/8/4K3 wb - -"));
    assert!(!is_valid_fen("4k3/8/8/8/8/8/8/4K3  w - -"));
    assert!(!is_valid_fen("4k3/8/8/8/8/8/4K3 w - -"));
    assert!(!is_valid_fen("4k3/8/8/8/8/8/8/8/4K3 w - -"));
    assert!(!is_valid_fen("4k3/8/8/8/8/8/8/4K4 w - -"));
    assert!(!is_valid_fen("4k3/8/8/8/8/8/8/4K2 w - -"));
    assert!(!is_valid_fen("4k3/8/8/8/8/8/8/4X3 w - -"));
    assert!(!is_valid_fen("4k3/9/8/8/8/8/8/4K3 w - -"));
    assert!(!is_valid_fen("4k3/08/8/8/8/8/8/4K3 w - -"));
    assert!(!is_valid_fen("4k3/8/8/8/8/8/8/4K3 w KX -"));
    assert!(!is_valid_fen("4k3/8/8/8/8/8/8/4K3 w  -"));
    assert!(!is_valid_fen("4k3/8/8/8/8/8/8/4K3 w - e9"));
    assert!(!is_valid_fen("4k3/8/8/8/8/8/8/4K3 w - i3"));
    assert!(!is_valid_fen("4k3/8/8/8/8/8/8/4K3 w - e"));
    assert!(!is_valid_fen("4k3/8/8/8/8/8/8/4K3 w - e33"));
    assert!(!is_valid_fen("4k3/8/8/8/8/8/8/4K3 w - --"));
}
