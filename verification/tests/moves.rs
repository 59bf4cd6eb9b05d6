use snow_crust::chess_board::ChessBoard;
use snow_crust::move_generator::MoveGenerator;

fn board_from(fen: &str) -> ChessBoard {
    let mut board = ChessBoard::new();
    board.build_board_from_fen_string(fen.to_string());
    board
}

fn notations(moves: &Vec<ChessBoard>) -> Vec<String> {
    moves.iter().map(|next| next.last_move.clone()).collect()
}

fn has(moves: &Vec<ChessBoard>, notation: &str) -> bool {
    moves.iter().any(|next| next.last_move == notation)
}

fn find<'a>(moves: &'a Vec<ChessBoard>, notation: &str) -> &'a ChessBoard {
    moves.iter().find(|next| next.last_move == notation).unwrap()
}

#[test]
fn initial_position_has_twenty_moves_in_order() {
    let generator = MoveGenerator::new();
    let mut board = ChessBoard::new();
    board.setup_initial_position();
    let moves = generator.generate_next_moves_from_board(&board);
    assert_eq!(
        notations(&moves),
        vec![
            "a2a4", "a2a3", "b2b4", "b2b3", "c2c4", "c2c3", "d2d4", "d2d3", "e2e4", "e2e3",
            "f2f4", "f2f3", "g2g4", "g2g3", "h2h4", "h2h3", "b1a3", "b1c3", "g1f3", "g1h3",
        ]
    );
    for next in &moves {
        assert!(!next.get_current_color());
        assert!(next.is_well_formed());
        assert!(generator.is_legal_position(next));
    }
}

#[test]
fn successors_are_handed_over() {
    let generator = MoveGenerator::new();
    let mut board = ChessBoard::new();
    board.setup_initial_position();
    let moves = generator.generate_next_moves_from_board(&board);
    let pushed = find(&moves, "e2e4");
    assert_eq!(pushed.get_score(), -50);
    assert_eq!(pushed.get_square(54), 'p');
    assert_eq!(pushed.get_square(34), '.');
    assert!(pushed.is_en_passant_active());
    assert_eq!(pushed.en_passant_square, 44);
    let stepped = find(&moves, "e2e3");
    assert_eq!(stepped.get_score(), -25);
    assert!(!stepped.is_en_passant_active());
}

#[test]
fn check_is_detected() {
    let generator = MoveGenerator::new();
    let cases = [
        ("4k3/8/8/8/8/8/8/4K3 w - -", false),
        ("4k3/8/8/8/8/8/4r3/4K3 w - -", true),
        ("4k3/8/8/8/8/4r3/4P3/4K3 w - -", false),
        ("4k3/8/8/8/8/4r3/8/4K3 w - -", true),
        ("4k3/8/8/8/1b6/8/8/4K3 w - -", true),
        ("4k3/8/8/8/1b6/8/3P4/4K3 w - -", false),
        ("4k3/8/8/8/8/8/3p4/4K3 w - -", true),
        ("4k3/8/8/8/8/8/4p3/4K3 w - -", false),
        ("4k3/8/8/8/8/3n4/8/4K3 w - -", true),
        ("4k3/8/8/8/8/4n3/8/4K3 w - -", false),
        ("4k3/8/8/8/7q/8/8/4K3 w - -", true),
        ("4k3/8/8/8/8/8/3k4/4K3 w - -", true),
        ("4k3/4R3/8/8/8/8/8/4K3 b - -", true),
        ("4k3/3P4/8/8/8/8/8/4K3 b - -", true),
        ("4k3/4P3/8/8/8/8/8/4K3 b - -", false),
    ];
    for (fen, check) in cases {
        assert_eq!(generator.detect_check(&board_from(fen)), check, "{}", fen);
    }
}

#[test]
fn attack_detection_agrees_with_its_mirror_image() {
    let generator = MoveGenerator::new();
    let boards = [
        "r3k2r/p1ppqpb1/bn2pnp1/3PN3/1p2P3/2N2Q1p/PPPBBPPP/R3K2R w KQkq -",
        "r3k2r/Pppp1ppp/1b3nbN/nP6/BBP1P3/q4N2/Pp1P2PP/R2Q1RK1 w kq - 0 1",
        "8/2p5/3p4/KP5r/1R3p1k/8/4P1P1/8 w - -",
        "4k3/8/8/8/8/8/4r3/4K3 w - -",
        "4k3/8/8/8/1b6/8/8/4K3 w - -",
        "4k3/8/8/8/8/3n4/8/4K3 w - -",
        "4k3/8/8/8/8/8/3p4/4K3 w - -",
        "4k3/3P4/8/8/8/8/8/4K3 b - -",
        "4k3/8/8/8/8/8/8/4K3 b - -",
    ];
    for fen in boards {
        let board = board_from(fen);
        let turned = board.clone_and_rotate();
        assert!(generator.is_legal_position(&board), "{}", fen);
        assert_eq!(generator.detect_check(&board), !generator.is_legal_position(&turned), "{}", fen);
        let moves = generator.generate_next_moves_from_board(&board);
        for next in &moves {
            assert!(generator.is_legal_position(next));
        }
    }
}

#[test]
fn pinned_piece_may_not_leave_the_line() {
    let generator = MoveGenerator::new();
    let board = board_from("4k3/8/8/8/8/4r3/4N3/4K3 w - -");
    let moves = generator.generate_next_moves_from_board(&board);
    assert_eq!(notations(&moves), vec!["e1d2", "e1f2", "e1d1", "e1f1"]);
}

#[test]
fn king_may_not_step_into_check_or_take_a_guarded_piece() {
    let generator = MoveGenerator::new();
    let board = board_from("4k3/8/8/8/8/8/3rr3/4K3 w - -");
    let moves = generator.generate_next_moves_from_board(&board);
    assert_eq!(notations(&moves), vec!["e1f1"]);
    let board = board_from("4k3/8/8/8/8/8/5PPP/r5K1 w - -");
    let moves = generator.generate_next_moves_from_board(&board);
    assert_eq!(moves.len(), 0);
    let board = board_from("4k3/8/8/8/8/8/4r3/4K3 w - -");
    let moves = generator.generate_next_moves_from_board(&board);
    assert_eq!(notations(&moves), vec!["e1d1", "e1f1", "e1e2"]);
    assert_eq!(find(&moves, "e1e2").get_score(), -(0 - 0 + 500 + 0));
}

#[test]
fn pawn_rules() {
    let generator = MoveGenerator::new();
    let board = board_from("4k3/8/8/8/8/n1n1p3/1P2P3/4K3 w - -");
    let moves = generator.generate_next_moves_from_board(&board);
    assert!(has(&moves, "b2b3"));
    assert!(has(&moves, "b2b4"));
    assert!(has(&moves, "b2a3"));
    assert!(has(&moves, "b2c3"));
    assert!(!has(&moves, "e2e3"));
    assert!(!has(&moves, "e2e4"));
    assert!(!has(&moves, "e2d3"));
    assert!(!has(&moves, "e2f3"));
    let board = board_from("4k3/8/8/8/1n6/8/1P6/4K3 w - -");
    let moves = generator.generate_next_moves_from_board(&board);
    assert!(has(&moves, "b2b3"));
    assert!(!has(&moves, "b2b4"));
    let board = board_from("4k3/8/8/8/8/1P6/8/4K3 w - -");
    let moves = generator.generate_next_moves_from_board(&board);
    assert!(has(&moves, "b3b4"));
    assert!(!has(&moves, "b3b5"));
}

#[test]
fn promotion_gives_four_successors() {
    let generator = MoveGenerator::new();
    let board = board_from("3n3k/4P3/8/8/8/8/8/K7 w - -");
    let moves = generator.generate_next_moves_from_board(&board);
    let promotions: Vec<String> =
        notations(&moves).into_iter().filter(|notation| notation.len() == 5).collect();
    assert_eq!(
        promotions,
        vec!["e7d8r", "e7d8n", "e7d8b", "e7d8q", "e7e8r", "e7e8n", "e7e8b", "e7e8q"]
    );
    let queen = find(&moves, "e7e8q");
    assert_eq!(queen.get_square(94), 'q');
    assert_eq!(queen.get_score(), -(-50 + 950 - 5));
    let rook = find(&moves, "e7e8r");
    assert_eq!(rook.get_square(94), 'r');
    assert_eq!(rook.get_score(), -(-50 + 500 + 0));
    let knight = find(&moves, "e7e8n");
    assert_eq!(knight.get_score(), -(-50 + 310 - 30));
    let bishop = find(&moves, "e7e8b");
    assert_eq!(bishop.get_score(), -(-50 + 370 - 10));
    let capture = find(&moves, "e7d8q");
    assert_eq!(capture.get_square(95), 'q');
    assert_eq!(capture.get_score(), -(-50 + 310 - 30 + 950 - 5));
}

#[test]
fn castling_is_generated_with_its_bonus_and_uses_up_the_rights() {
    let generator = MoveGenerator::new();
    let board = board_from("r3k2r/8/8/8/8/8/8/R3K2R w KQkq -");
    let moves = generator.generate_next_moves_from_board(&board);
    let short = find(&moves, "e1g1");
    assert_eq!(short.get_square(119 - 97), 'k');
    assert_eq!(short.get_square(119 - 96), 'r');
    assert_eq!(short.get_square(119 - 98), '.');
    assert_eq!(short.get_square(119 - 95), '.');
    assert_eq!(short.get_score(), -(0 - 0 + 30 - 0 + 110));
    let long = find(&moves, "e1c1");
    assert_eq!(long.get_square(119 - 93), 'k');
    assert_eq!(long.get_square(119 - 94), 'r');
    assert_eq!(long.get_square(119 - 91), '.');
    assert_eq!(long.get_score(), -(5 - 0 + 10 - 0 + 110));
    for castled in [short, long] {
        assert!(castled.get_left_castling());
        assert!(castled.get_right_castling());
        let back = castled.clone_and_rotate();
        assert!(!back.get_left_castling());
        assert!(!back.get_right_castling());
    }
    let rook_move = find(&moves, "h1f1");
    let back = rook_move.clone_and_rotate();
    assert!(back.get_left_castling());
    assert!(!back.get_right_castling());
    let king_move = find(&moves, "e1e2");
    let back = king_move.clone_and_rotate();
    assert!(!back.get_left_castling());
    assert!(!back.get_right_castling());
    let black = board_from("r3k2r/8/8/8/8/8/8/R3K2R b KQkq -");
    let moves = generator.generate_next_moves_from_board(&black);
    assert!(has(&moves, "e8g8"));
    assert!(has(&moves, "e8c8"));
}

#[test]
fn castling_needs_its_conditions() {
    let generator = MoveGenerator::new();
    let castles = |fen: &str| -> (bool, bool) {
        let moves = generator.generate_next_moves_from_board(&board_from(fen));
        (has(&moves, "e1c1"), has(&moves, "e1g1"))
    };
    assert_eq!(castles("r3k2r/8/8/8/8/8/8/R3K2R w KQkq -"), (true, true));
    assert_eq!(castles("r3k2r/8/8/8/8/8/8/R3K2R w Kkq -"), (false, true));
    assert_eq!(castles("r3k2r/8/8/8/8/8/8/R3K2R w Qkq -"), (true, false));
    assert_eq!(castles("r3k2r/8/8/8/8/8/8/R3K2R w kq -"), (false, false));
    assert_eq!(castles("r3k3/8/8/8/8/8/4r3/R3K2R w KQ -"), (false, false));
    assert_eq!(castles("4k3/8/8/8/8/8/5r2/R3K2R w KQ -"), (true, false));
    assert_eq!(castles("4k3/8/8/8/8/8/6r1/R3K2R w KQ -"), (true, false));
    assert_eq!(castles("4k3/8/8/8/8/8/3r4/R3K2R w KQ -"), (false, true));
    assert_eq!(castles("4k3/8/8/8/8/8/2r5/R3K2R w KQ -"), (false, true));
    assert_eq!(castles("4k3/8/8/8/8/8/1r6/R3K2R w KQ -"), (true, true));
    assert_eq!(castles("4k3/8/8/8/8/8/8/RN2K1NR w KQ -"), (false, false));
    assert_eq!(castles("4k3/8/8/8/8/8/8/R2QKB1R w KQ -"), (false, false));
}

#[test]
fn en_passant_is_open_for_one_reply_only() {
    let generator = MoveGenerator::new();
    let board = board_from("4k3/8/8/8/5p2/8/4P3/4K3 w - -");
    let moves = generator.generate_next_moves_from_board(&board);
    let pushed = find(&moves, "e2e4");
    assert!(pushed.is_en_passant_active());
    let replies = generator.generate_next_moves_from_board(pushed);
    let capture = find(&replies, "f4e3");
    assert_eq!(capture.get_square(119 - 44), 'p');
    assert_eq!(capture.get_square(65), '.');
    assert_eq!(capture.get_square(66), '.');
    assert!(!has(&generator.generate_next_moves_from_board(capture), "e4e3"));
    let waiting = find(&replies, "e8d8");
    let second = generator.generate_next_moves_from_board(waiting);
    let white_waits = find(&second, "e1d1");
    let third = generator.generate_next_moves_from_board(white_waits);
    assert!(!has(&third, "f4e3"));
    assert!(has(&third, "f4f3"));
    let stepped = find(&moves, "e2e3");
    let replies = generator.generate_next_moves_from_board(stepped);
    assert!(has(&replies, "f4e3"));
    assert_eq!(find(&replies, "f4e3").get_score(), -(-25 + 30 - 10 + 100 + 30));
}

#[test]
fn en_passant_capture_from_a_description() {
    let generator = MoveGenerator::new();
    let board = board_from("4k3/8/8/3pP3/8/8/8/4K3 w - d6");
    let moves = generator.generate_next_moves_from_board(&board);
    let capture = find(&moves, "e5d6");
    assert_eq!(capture.get_score(), -130);
    assert_eq!(capture.get_square(119 - 44), 'p');
    assert_eq!(capture.get_square(119 - 54), '.');
    let closed = board_from("4k3/8/8/3pP3/8/8/8/4K3 w - -");
    let moves = generator.generate_next_moves_from_board(&closed);
    assert!(!has(&moves, "e5d6"));
    assert!(has(&moves, "e5e6"));
}

#[test]
fn legality_of_positions_is_checked() {
    let generator = MoveGenerator::new();
    assert!(generator.is_legal_position(&board_from("4k3/8/8/8/8/8/8/4K3 w - -")));
    assert!(generator.is_legal_position(&board_from("4k3/8/8/8/8/8/4r3/4K3 w - -")));
    assert!(!generator.is_legal_position(&board_from("4k3/4R3/8/8/8/8/8/4K3 w - -")));
    assert!(!generator.is_legal_position(&board_from("8/8/8/8/8/8/8/4K3 w - -")));
    assert!(!generator.is_legal_position(&board_from("4k3/8/8/8/8/8/8/8 w - -")));
    assert!(!generator.is_legal_position(&board_from("4k3/8/8/8/8/8/8/3KK3 w - -")));
    assert!(!generator.is_legal_position(&board_from("3kk3/8/8/8/8/8/8/4K3 w - -")));
    assert!(!generator.is_legal_position(&board_from("4k3/8/8/8/8/8/8/4K3 w - e3")));
    assert!(!generator.is_legal_position(&ChessBoard::new()));
}

#[test]
fn perft_of_small_trees() {
    let mut generator = MoveGenerator::new();
    let board = board_from("4k3/8/8/8/8/8/5PPP/r5K1 w - -");
    assert_eq!(generator.calculate_perft_depth(&board, 0, false), 1);
    assert_eq!(generator.calculate_perft_depth(&board, 1, false), 0);
    assert_eq!(generator.calculate_perft_depth(&board, 3, true), 0);
    let kings = board_from("4k3/8/8/8/8/8/8/4K3 w - -");
    assert_eq!(generator.calculate_perft_depth(&kings, 1, false), 5);
    assert_eq!(generator.calculate_perft_depth(&kings, 2, true), 25);
}

#[test]
fn perft_is_broken_down_by_first_move() {
    let mut generator = MoveGenerator::new();
    let mut board = ChessBoard::new();
    board.setup_initial_position();
    let lines = generator.perft_breakdown(&board, 2);
    assert_eq!(lines.len(), 20);
    assert_eq!(lines[0], ("a2a4".to_string(), 20));
    assert_eq!(lines[19], ("g1h3".to_string(), 20));
    let lines = generator.perft_breakdown(&board, 3);
    let total: usize = lines.iter().map(|line| line.1).sum();
    assert_eq!(total, 8902);
    assert_eq!(total, generator.calculate_perft_depth(&board, 3, true));
    let lines = generator.perft_breakdown(&board, 1);
    assert!(lines.iter().all(|line| line.1 == 1));
}
