use snow_crust::chess_board::ChessBoard;
use snow_crust::move_generator::MoveGenerator;

#[test]
fn perft_test_with_initial_position() {
    let mut move_generator = MoveGenerator::new();
    let mut test_board = ChessBoard::new();

    test_board.setup_initial_position();
    assert_eq!(move_generator.calculate_perft_depth(&test_board, 0, false), 1);
    assert_eq!(move_generator.calculate_perft_depth(&test_board, 1, false), 20);
    assert_eq!(move_generator.calculate_perft_depth(&test_board, 2, false), 400);
    assert_eq!(move_generator.calculate_perft_depth(&test_board, 3, false), 8902);
    assert_eq!(move_generator.calculate_perft_depth(&test_board, 4, false), 197281);
    assert_eq!(move_generator.calculate_perft_depth(&test_board, 5, false), 4865609);
}

#[test]
fn perft_test_with_position_2() {
    let mut move_generator = MoveGenerator::new();
    let mut test_board = ChessBoard::new();

    test_board.setup_position_2();
    assert_eq!(move_generator.calculate_perft_depth(&test_board, 0, false), 1);
    assert_eq!(move_generator.calculate_perft_depth(&test_board, 1, false), 48);
    assert_eq!(move_generator.calculate_perft_depth(&test_board, 2, false), 2039);
    assert_eq!(move_generator.calculate_perft_depth(&test_board, 3, false), 97862);
    assert_eq!(move_generator.calculate_perft_depth(&test_board, 4, false), 4085603);
}

#[test]
fn perft_test_with_position_3() {
    let mut move_generator = MoveGenerator::new();
    let mut test_board = ChessBoard::new();

    test_board.setup_position_3();
    assert_eq!(move_generator.calculate_perft_depth(&test_board, 0, false), 1);
    assert_eq!(move_generator.calculate_perft_depth(&test_board, 1, false), 14);
    assert_eq!(move_generator.calculate_perft_depth(&test_board, 2, false), 191);
    assert_eq!(move_generator.calculate_perft_depth(&test_board, 3, false), 2812);
    assert_eq!(move_generator.calculate_perft_depth(&test_board, 4, false), 43238);
    assert_eq!(move_generator.calculate_perft_depth(&test_board, 5, false), 674624);
    assert_eq!(move_generator.calculate_perft_depth(&test_board, 6, false), 11030083);
}

#[test]
fn perft_test_with_position_4() {
    let mut move_generator = MoveGenerator::new();
    let mut test_board = ChessBoard::new();

    test_board.setup_position_4();
    assert_eq!(move_generator.calculate_perft_depth(&test_board, 0, false), 1);
    assert_eq!(move_generator.calculate_perft_depth(&test_board, 1, false), 6);
    assert_eq!(move_generator.calculate_perft_depth(&test_board, 2, false), 264);
    assert_eq!(move_generator.calculate_perft_depth(&test_board, 3, false), 9467);
    assert_eq!(move_generator.calculate_perft_depth(&test_board, 4, false), 422333);
    assert_eq!(move_generator.calculate_perft_depth(&test_board, 5, false), 15833292);
}

#[test]
fn perft_test_with_position_5() {
    let mut move_generator = MoveGenerator::new();
    let mut test_board = ChessBoard::new();

    test_board.setup_position_5();
    assert_eq!(move_generator.calculate_perft_depth(&test_board, 0, false), 1);
    assert_eq!(move_generator.calculate_perft_depth(&test_board, 1, false), 44);
    assert_eq!(move_generator.calculate_perft_depth(&test_board, 2, false), 1486);
    assert_eq!(move_generator.calculate_perft_depth(&test_board, 3, false), 62379);
    assert_eq!(move_generator.calculate_perft_depth(&test_board, 4, false), 2103487);
}

#[test]
fn perft_test_with_position_6() {
    let mut move_generator = MoveGenerator::new();
    let mut test_board = ChessBoard::new();

    test_board.setup_position_6();
    assert_eq!(move_generator.calculate_perft_depth(&test_board, 0, false), 1);
    assert_eq!(move_generator.calculate_perft_depth(&test_board, 1, false), 46);
    assert_eq!(move_generator.calculate_perft_depth(&test_board, 2, false), 2079);
    assert_eq!(move_generator.calculate_perft_depth(&test_board, 3, false), 89890);
    assert_eq!(move_generator.calculate_perft_depth(&test_board, 4, false), 3894594);
}
