use snow_crust::chess_board::ChessBoard;
use snow_crust::game::{score_leaves_room, Game};
use snow_crust::move_generator::MoveGenerator;
use snow_crust::searcher::Searcher;

fn board_from(fen: &str) -> ChessBoard {
    let mut board = ChessBoard::new();
    board.build_board_from_fen_string(fen.to_string());
    board
}

#[test]
fn new_searcher_has_found_nothing() {
    let searcher = Searcher::new();
    assert!(searcher.next_move.board_vector.is_empty());
    assert_eq!(searcher.next_move.last_move, "");
    assert_eq!(searcher.game_status, "");
    assert_eq!(searcher.game_result, "");
}

#[test]
fn depth_zero_changes_nothing() {
    let mut searcher = Searcher::new();
    let mut board = ChessBoard::new();
    board.setup_initial_position();
    searcher.run_negamax(&board, 0);
    assert_eq!(searcher.next_move.last_move, "");
    assert_eq!(searcher.game_status, "");
    searcher.run_alpha_beta_pruning(&board, 0);
    assert_eq!(searcher.next_move.last_move, "");
    assert_eq!(searcher.game_status, "");
}

#[test]
fn depth_one_takes_the_best_score() {
    let mut searcher = Searcher::new();
    let mut board = ChessBoard::new();
    board.setup_initial_position();
    searcher.run_negamax(&board, 1);
    assert_eq!(searcher.next_move.last_move, "d2d4");
    assert_eq!(searcher.next_move.get_score(), -50);
    assert_eq!(searcher.game_status, "");
    let board = board_from("4k3/8/8/3q4/4P3/8/8/4K3 w - -");
    searcher.run_negamax(&board, 1);
    assert_eq!(searcher.next_move.last_move, "e4d5");
    searcher.run_alpha_beta_pruning(&board, 1);
    assert_eq!(searcher.next_move.last_move, "e4d5");
}

#[test]
fn mate_in_one_is_found() {
    let board = board_from("6k1/5ppp/8/8/8/8/8/R3K3 w - -");
    let mut searcher = Searcher::new();
    searcher.run_negamax(&board, 2);
    assert_eq!(searcher.next_move.last_move, "a1a8");
    assert_eq!(searcher.game_status, "");
    let mut searcher = Searcher::new();
    searcher.run_alpha_beta_pruning(&board, 2);
    assert_eq!(searcher.next_move.last_move, "a1a8");
    let mut searcher = Searcher::new();
    searcher.run_alpha_beta_pruning(&board, 3);
    assert_eq!(searcher.next_move.last_move, "a1a8");
    let mut searcher = Searcher::new();
    searcher.run_negamax(&board, 3);
    assert_eq!(searcher.next_move.last_move, "a1a8");
}

#[test]
fn stalemate_is_worth_nothing() {
    let board = board_from("7k/8/5KQ1/8/8/8/8/8 w - -");
    let generator = MoveGenerator::new();
    let moves = generator.generate_next_moves_from_board(&board);
    let stalemating = moves.iter().find(|next| next.last_move == "g6f7").unwrap();
    assert_eq!(generator.generate_next_moves_from_board(stalemating).len(), 0);
    assert!(!generator.detect_check(stalemating));
    for depth in 2..4 {
        let mut searcher = Searcher::new();
        searcher.run_negamax(&board, depth);
        assert!(searcher.next_move.last_move != "g6f7");
        let chosen = searcher.next_move.last_move.clone();
        searcher.run_alpha_beta_pruning(&board, depth);
        assert_eq!(searcher.next_move.last_move, chosen);
    }
}

#[test]
fn game_over_is_reported() {
    let mated_black = board_from("R5k1/5ppp/8/8/8/8/8/4K3 b - -");
    let mated_white = board_from("4k3/8/8/8/8/8/5PPP/r5K1 w - -");
    let stalemate = board_from("7k/5Q2/6K1/8/8/8/8/8 b - -");
    for depth in 1..4 {
        let mut searcher = Searcher::new();
        searcher.run_negamax(&mated_black, depth);
        assert_eq!(searcher.game_status, "Finished");
        assert_eq!(searcher.game_result, "White Won!");
        assert_eq!(searcher.next_move.last_move, "");
        let mut searcher = Searcher::new();
        searcher.run_alpha_beta_pruning(&mated_black, depth);
        assert_eq!(searcher.game_status, "Finished");
        assert_eq!(searcher.game_result, "White Won!");
        let mut searcher = Searcher::new();
        searcher.run_negamax(&mated_white, depth);
        assert_eq!(searcher.game_status, "Finished");
        assert_eq!(searcher.game_result, "Black Won!");
        let mut searcher = Searcher::new();
        searcher.run_alpha_beta_pruning(&mated_white, depth);
        assert_eq!(searcher.game_result, "Black Won!");
        let mut searcher = Searcher::new();
        searcher.run_negamax(&stalemate, depth);
        assert_eq!(searcher.game_status, "Finished");
        assert_eq!(searcher.game_result, "Draw");
        let mut searcher = Searcher::new();
        searcher.run_alpha_beta_pruning(&stalemate, depth);
        assert_eq!(searcher.game_status, "Finished");
        assert_eq!(searcher.game_result, "Draw");
    }
}

#[test]
fn alpha_beta_chooses_as_negamax_does() {
    let descriptions = [
        "rnbqkbnr/pppppppp/8/8/8/8/PPPPPPPP/RNBQKBNR w KQkq - 0 1",
        "r3k2r/p1ppqpb1/bn2pnp1/3PN3/1p2P3/2N2Q1p/PPPBBPPP/R3K2R w KQkq -",
        "8/2p5/3p4/KP5r/1R3p1k/8/4P1P1/8 w - -",
        "r3k2r/Pppp1ppp/1b3nbN/nP6/BBP1P3/q4N2/Pp1P2PP/R2Q1RK1 w kq - 0 1",
        "rnbq1k1r/pp1Pbppp/2p5/8/2B5/8/PPP1NnPP/RNBQK2R w KQ - 1 8",
        "r4rk1/1pp1qppp/p1np1n2/2b1p1B1/2B1P1b1/P1NP1N2/1PP1QPPP/R4RK1 b - - 0 10",
        "6k1/5ppp/8/8/8/8/8/R3K3 w - -",
        "7k/8/5KQ1/8/8/8/8/8 w - -",
    ];
    for description in descriptions {
        let board = board_from(description);
        for depth in 1..4 {
            let mut plain = Searcher::new();
            plain.run_negamax(&board, depth);
            let mut pruned = Searcher::new();
            pruned.run_alpha_beta_pruning(&board, depth);
            assert_eq!(pruned.next_move.last_move, plain.next_move.last_move);
            assert_eq!(pruned.next_move.board_vector, plain.next_move.board_vector);
            assert_eq!(pruned.next_move.get_score(), plain.next_move.get_score());
            assert_eq!(pruned.game_status, plain.game_status);
            assert_eq!(pruned.game_result, plain.game_result);
            assert!(plain.next_move.last_move.len() >= 4);
        }
    }
}

#[test]
fn game_plays_named_moves() {
    let mut game = Game::new();
    game.setup_initial_position();
    assert!(game.can_accept_move(&"e2e4".to_string()));
    assert!(!game.can_accept_move(&"e2e5".to_string()));
    assert!(!game.can_accept_move(&"e7e5".to_string()));
    game.accept_move("e2e4".to_string());
    assert!(game.can_accept_move(&"e7e5".to_string()));
    assert!(!game.can_accept_move(&"e2e4".to_string()));
    game.accept_move("e7e5".to_string());
    assert!(game.can_accept_move(&"g1f3".to_string()));
    assert!(game.can_find_best_move());
}

#[test]
fn game_finds_a_best_move() {
    let mut game = Game::new();
    game.build_board_from_fen_string("6k1/5ppp/8/8/8/8/8/R3K3 w - -".to_string());
    assert!(game.can_find_best_move());
    assert_eq!(game.find_best_move(), "a1a8");
    assert_eq!(game.game_status(), "");
    assert!(game.can_accept_move(&"a1a8".to_string()));
    game.accept_move("a1a8".to_string());
    assert!(!game.can_accept_move(&"g8h8".to_string()));
    game.find_best_move();
    assert_eq!(game.game_status(), "Finished");
    assert_eq!(game.game_result(), "White Won!");
}

#[test]
fn score_room_is_measured_in_plies() {
    assert!(score_leaves_room(0, 0));
    assert!(score_leaves_room(0, 9999));
    assert!(score_leaves_room(i64::MAX - 200_000, 0));
    assert!(score_leaves_room(-(i64::MAX - 200_000), 0));
    assert!(!score_leaves_room(i64::MAX - 199_999, 0));
    assert!(!score_leaves_room(-(i64::MAX - 199_999), 0));
    assert!(score_leaves_room(i64::MAX - 600_000, 4));
    assert!(!score_leaves_room(i64::MAX - 599_999, 4));
    assert!(!score_leaves_room(i64::MIN, 0));
}

#[test]
fn searcher_reports_what_it_found() {
    let board = board_from("6k1/5ppp/8/8/8/8/8/R3K3 w - -");
    let mut searcher = Searcher::new();
    assert_eq!(searcher.get_next_move_notation(), "");
    assert_eq!(searcher.get_game_status(), "");
    assert_eq!(searcher.get_game_result(), "");
    searcher.run_alpha_beta_pruning(&board, 2);
    assert_eq!(searcher.get_next_move_notation(), "a1a8");
    let generator = MoveGenerator::new();
    let moves = generator.generate_next_moves_from_board(&board);
    assert!(moves.iter().any(|next| next.board_vector == searcher.next_move.board_vector));
    let mated = searcher.next_move.clone();
    searcher.run_negamax(&mated, 1);
    assert_eq!(searcher.get_game_status(), "Finished");
    assert_eq!(searcher.get_game_result(), "White Won!");
    assert_eq!(searcher.get_next_move_notation(), "a1a8");
}

#[test]
fn depth_zero_needs_no_position() {
    let mut searcher = Searcher::new();
    let blank = ChessBoard::new();
    searcher.run_negamax(&blank, 0);
    searcher.run_alpha_beta_pruning(&blank, 0);
    assert_eq!(searcher.get_next_move_notation(), "");
    assert_eq!(searcher.get_game_status(), "");
    let mut generator = MoveGenerator::new();
    assert_eq!(generator.calculate_perft_depth(&blank, 0, false), 1);
}
