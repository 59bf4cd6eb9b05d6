use snow_crust::game::Game;
use snow_crust::uci_interface::{read_words, uci, uci_command, UciFailure, UciResponse};

fn lines(response: UciResponse) -> Vec<String> {
    match response {
        UciResponse::Lines(lines) => lines,
        UciResponse::Quit => panic!("quit"),
        UciResponse::Failed(failure) => panic!("{:?}", failure),
    }
}

fn failure(response: UciResponse) -> UciFailure {
    match response {
        UciResponse::Failed(failure) => failure,
        _ => panic!("no failure"),
    }
}

#[test]
fn lines_are_read_word_by_word() {
    assert_eq!(read_words(""), Vec::<String>::new());
    assert_eq!(read_words("   \t "), Vec::<String>::new());
    assert_eq!(read_words("go"), vec!["go"]);
    assert_eq!(read_words("  position   startpos\tmoves e2e4 \r\n"), vec![
        "position", "startpos", "moves", "e2e4"
    ]);
    assert_eq!(read_words("a\u{a0}b\u{3000}c\u{2003}d"), vec!["a", "b", "c", "d"]);
    assert_eq!(read_words("a.b-c"), vec!["a.b-c"]);
    for text in ["a b  c", " x\ty\n", "\u{85}\u{1680}q\u{2028}\u{2029}\u{202f}\u{205f}r", "\u{b}\u{c}"] {
        let expected: Vec<String> = text.split_whitespace().map(|word| word.to_string()).collect();
        assert_eq!(read_words(text), expected);
    }
}

#[test]
fn engine_identifies_itself() {
    assert_eq!(uci(), vec!["id name Snow Crust", "id author Ugur Mislina Gul", "uciok"]);
    let mut game = Game::new();
    assert_eq!(lines(uci_command(&mut game, "uci")), uci());
    assert_eq!(lines(uci_command(&mut game, "isready")), vec!["readyok"]);
}

#[test]
fn idle_commands_print_nothing() {
    let mut game = Game::new();
    assert!(lines(uci_command(&mut game, "")).is_empty());
    assert!(lines(uci_command(&mut game, "   ")).is_empty());
    assert!(lines(uci_command(&mut game, "ucinewgame")).is_empty());
    assert!(lines(uci_command(&mut game, "setoption name Hash value 32")).is_empty());
    assert_eq!(lines(uci_command(&mut game, "hello world")), vec!["Unrecognised Token: hello"]);
    assert!(matches!(uci_command(&mut game, "quit"), UciResponse::Quit));
    assert!(matches!(uci_command(&mut game, " quit now"), UciResponse::Quit));
}

#[test]
fn position_commands_set_the_game_up() {
    let mut game = Game::new();
    assert!(lines(uci_command(&mut game, "position startpos")).is_empty());
    assert!(game.can_accept_move(&"e2e4".to_string()));
    assert!(lines(uci_command(&mut game, "position startpos moves e2e4 e7e5")).is_empty());
    assert!(game.can_accept_move(&"g1f3".to_string()));
    assert!(!game.can_accept_move(&"e2e4".to_string()));
    assert!(lines(uci_command(
        &mut game,
        "position fen 6k1/5ppp/8/8/8/8/8/R3K3 w - - 0 1 moves a1a7 g8h8"
    ))
    .is_empty());
    assert!(game.can_accept_move(&"a7a8".to_string()));
    assert!(!game.can_accept_move(&"a1a8".to_string()));
    assert!(lines(uci_command(&mut game, "position fen 6k1/5ppp/8/8/8/8/8/R3K3 w - -")).is_empty());
    assert_eq!(lines(uci_command(&mut game, "go")), vec!["bestmove a1a8"]);
}

#[test]
fn position_commands_can_fail() {
    let mut game = Game::new();
    assert_eq!(failure(uci_command(&mut game, "position")), UciFailure::InvalidPosition);
    assert_eq!(failure(uci_command(&mut game, "position here")), UciFailure::InvalidPosition);
    assert_eq!(failure(uci_command(&mut game, "position fen")), UciFailure::InvalidPosition);
    assert_eq!(
        failure(uci_command(&mut game, "position fen 8/8/8/8/8/8/8/8 w - -")),
        UciFailure::InvalidPosition
    );
    assert_eq!(
        failure(uci_command(&mut game, "position fen 4k3/8/8/8/8/8/8/4K3 x - -")),
        UciFailure::InvalidPosition
    );
    assert_eq!(
        failure(uci_command(&mut game, "position startpos moves e2e5")),
        UciFailure::IllegalMove
    );
    assert_eq!(
        failure(uci_command(&mut game, "position startpos moves e2e4 moves")),
        UciFailure::IllegalMove
    );
    assert!(game.can_accept_move(&"e7e5".to_string()));
    assert_eq!(failure(uci_command(&mut Game::new(), "go")), UciFailure::NothingToSearch);
}
