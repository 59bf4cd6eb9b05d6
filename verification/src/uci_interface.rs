//! The engine's side of the line-based protocol: what to answer to a line of
//! commands, and what the line does to the game.
//!
//! Reading the lines and printing the answers is left to the front end. A
//! line is a command word followed by its arguments, separated by white
//! space.

use crate::chess_board::fen::{characters_of, fen_position, valid_fen};
use crate::chess_board::setups::initial_position;
use crate::game::{Game, GameState, PLAYING_DEPTH};
use crate::rules::successors::successors;
use crate::searcher::search_outcome;
use vstd::prelude::*;

verus! {

/// A character that separates words: the white space of Unicode.
pub open spec fn is_white_space(c: char) -> bool {
    ||| '\u{9}' <= c && c <= '\u{d}'
    ||| c == ' '
    ||| c == '\u{85}'
    ||| c == '\u{a0}'
    ||| c == '\u{1680}'
    ||| '\u{2000}' <= c && c <= '\u{200a}'
    ||| c == '\u{2028}'
    ||| c == '\u{2029}'
    ||| c == '\u{202f}'
    ||| c == '\u{205f}'
    ||| c == '\u{3000}'
}

/// The words read so far and the word that is being read, after the whole
/// of `text` has been looked at.
pub open spec fn read_so_far(text: Seq<char>) -> (Seq<Seq<char>>, Seq<char>)
    decreases text.len(),
{
    if text.len() == 0 {
        (Seq::empty(), Seq::empty())
    } else {
        let (done, open) = read_so_far(text.drop_last());
        if !is_white_space(text.last()) {
            (done, open.push(text.last()))
        } else if open.len() > 0 {
            (done.push(open), Seq::empty())
        } else {
            (done, open)
        }
    }
}

/// The words of a text: its longest runs of characters that are no white
/// space.
pub open spec fn words_of(text: Seq<char>) -> Seq<Seq<char>> {
    let (done, open) = read_so_far(text);
    if open.len() > 0 {
        done.push(open)
    } else {
        done
    }
}

/// The texts that a list of strings holds.
pub open spec fn strings(list: Seq<String>) -> Seq<Seq<char>> {
    list.map_values(|word: String| word@)
}

/// What stops the handling of a line.
#[derive(Clone, Copy, Debug, PartialEq, Eq)]
pub enum UciFailure {
    /// The arguments of `position` describe no legal position.
    InvalidPosition,
    /// A move is not legal in the position that it is to be played in.
    IllegalMove,
    /// There is no position to search from.
    NothingToSearch,
}

/// What the front end has to do after a line.
pub enum UciResponse {
    /// Print the lines and go on reading.
    Lines(Vec<String>),
    /// Stop reading.
    Quit,
    /// Give up: the line cannot be followed.
    Failed(UciFailure),
}

/// A response as plain values.
pub enum UciResponseView {
    Lines(Seq<Seq<char>>),
    Quit,
    Failed(UciFailure),
}

impl View for UciResponse {
    type V = UciResponseView;

    open spec fn view(&self) -> UciResponseView {
        match self {
            UciResponse::Lines(lines) => UciResponseView::Lines(strings(lines@)),
            UciResponse::Quit => UciResponseView::Quit,
            UciResponse::Failed(failure) => UciResponseView::Failed(*failure),
        }
    }
}

/// The answer to `uci`: the engine's name, its author, and the closing line.
pub open spec fn identification() -> Seq<Seq<char>> {
    seq!["id name Snow Crust"@, "id author Ugur Mislina Gul"@, "uciok"@]
}

/// The index of the first word `moves` at or after `from`, or the number of
/// words if there is none.
pub open spec fn moves_word(words: Seq<Seq<char>>, from: int) -> int
    decreases words.len() - from,
{
    if from < 0 || from >= words.len() {
        words.len() as int
    } else if words[from] == "moves"@ {
        from
    } else {
        moves_word(words, from + 1)
    }
}

/// The words from `from` up to `until`, each followed by a blank.
pub open spec fn joined(words: Seq<Seq<char>>, from: int, until: int) -> Seq<char>
    decreases until - from,
{
    if from >= until {
        Seq::empty()
    } else {
        joined(words, from, until - 1) + words[until - 1] + seq![' ']
    }
}

/// The game after the moves named by the words from `from` on have been
/// played one after the other, as far as they can be accepted, and whether
/// all of them were.
pub open spec fn moves_played(state: GameState, words: Seq<Seq<char>>, from: int) -> (
    GameState,
    bool,
)
    decreases words.len() - from,
{
    if from < 0 || from >= words.len() {
        (state, true)
    } else if !state.accepts(words[from]) {
        (state, false)
    } else {
        moves_played(state.after_move(words[from]), words, from + 1)
    }
}

/// The game with the position `p` set up.
pub open spec fn set_up_game(before: GameState, p: crate::chess_board::Position) -> GameState {
    GameState { position: p, legal_moves: successors(p), search: before.search }
}

/// What follows from playing the moves after the word `moves`: no line to
/// print if every move was accepted, a failure otherwise.
pub open spec fn after_moves_word(state: GameState, words: Seq<Seq<char>>, from: int) -> (
    GameState,
    UciResponseView,
) {
    let (after, accepted) = moves_played(state, words, moves_word(words, from) + 1);
    if accepted {
        (after, UciResponseView::Lines(Seq::empty()))
    } else {
        (after, UciResponseView::Failed(UciFailure::IllegalMove))
    }
}

/// What `position` does: `position fen`, followed by a description and
/// perhaps by `moves` and moves, sets up the described position;
/// `position startpos`, perhaps followed by `moves` and moves, the starting
/// position. The moves are then played.
pub open spec fn position_outcome(before: GameState, words: Seq<Seq<char>>) -> (
    GameState,
    UciResponseView,
) {
    if words.len() >= 2 && words[1] == "fen"@ {
        let fen = joined(words, 2, moves_word(words, 2));
        if valid_fen(fen) && fen_position(fen).legal() {
            after_moves_word(set_up_game(before, fen_position(fen)), words, 2)
        } else {
            (before, UciResponseView::Failed(UciFailure::InvalidPosition))
        }
    } else if words.len() >= 2 && words[1] == "startpos"@ {
        after_moves_word(set_up_game(before, initial_position()), words, 2)
    } else {
        (before, UciResponseView::Failed(UciFailure::InvalidPosition))
    }
}

/// What `go` does: the move to play is searched for and named in the
/// answer, if there is a position to search from.
pub open spec fn go_outcome(before: GameState) -> (GameState, UciResponseView) {
    if before.can_search() {
        let search = search_outcome(before.search, before.position, PLAYING_DEPTH as nat);
        (
            GameState { search, ..before },
            UciResponseView::Lines(seq!["bestmove "@ + search.next_move.last_move]),
        )
    } else {
        (before, UciResponseView::Failed(UciFailure::NothingToSearch))
    }
}

/// What a line of words does to the game, and the response to it.
pub open spec fn command_outcome(before: GameState, words: Seq<Seq<char>>) -> (
    GameState,
    UciResponseView,
) {
    if words.len() == 0 {
        (before, UciResponseView::Lines(Seq::empty()))
    } else if words[0] == "uci"@ {
        (before, UciResponseView::Lines(identification()))
    } else if words[0] == "isready"@ {
        (before, UciResponseView::Lines(seq!["readyok"@]))
    } else if words[0] == "ucinewgame"@ {
        (before, UciResponseView::Lines(Seq::empty()))
    } else if words[0] == "position"@ {
        position_outcome(before, words)
    } else if words[0] == "go"@ {
        go_outcome(before)
    } else if words[0] == "setoption"@ {
        (before, UciResponseView::Lines(Seq::empty()))
    } else if words[0] == "quit"@ {
        (before, UciResponseView::Quit)
    } else {
        (before, UciResponseView::Lines(seq!["Unrecognised Token: "@ + words[0]]))
    }
}

/// Tells whether `c` separates words.
pub fn is_white_space_character(c: char) -> (r: bool)
    ensures
        r == is_white_space(c),
{
    (c >= '\u{9}' && c <= '\u{d}') || c == ' ' || c == '\u{85}' || c == '\u{a0}' || c
        == '\u{1680}' || (c >= '\u{2000}' && c <= '\u{200a}') || c == '\u{2028}' || c
        == '\u{2029}' || c == '\u{202f}' || c == '\u{205f}' || c == '\u{3000}'
}

/// The words of a line.
pub fn read_words(line: &str) -> (words: Vec<String>)
    ensures
        strings(words@) == words_of(line@),
{
    let characters = characters_of(line);
    let mut words: Vec<String> = Vec::new();
    let mut start: usize = 0;
    let mut taken: usize = 0;
    assert(line@.subrange(0, 0) =~= Seq::<char>::empty());
    assert(strings(words@) =~= Seq::<Seq<char>>::empty());
    while taken < characters.len()
        invariant
            characters@ == line@,
            start <= taken <= line@.len(),
            strings(words@) == read_so_far(line@.subrange(0, taken as int)).0,
            line@.subrange(start as int, taken as int) == read_so_far(
                line@.subrange(0, taken as int),
            ).1,
        decreases line@.len() - taken,
    {
        let c = characters[taken];
        proof {
            let longer = line@.subrange(0, taken + 1);
            assert(longer.drop_last() =~= line@.subrange(0, taken as int));
            assert(longer.last() == c);
        }
        if !is_white_space_character(c) {
            assert(line@.subrange(start as int, taken + 1) =~= line@.subrange(
                start as int,
                taken as int,
            ).push(c));
        } else {
            if start < taken {
                let ghost earlier = strings(words@);
                let word = String::from_str(line.substring_char(start, taken));
                words.push(word);
                assert(strings(words@) =~= earlier.push(line@.subrange(start as int, taken as int)));
            }
            start = taken + 1;
            assert(line@.subrange(start as int, taken + 1) =~= Seq::<char>::empty());
        }
        taken = taken + 1;
    }
    assert(line@.subrange(0, taken as int) =~= line@);
    if start < taken {
        let ghost earlier = strings(words@);
        let word = String::from_str(line.substring_char(start, taken));
        words.push(word);
        assert(strings(words@) =~= earlier.push(line@.subrange(start as int, taken as int)));
    }
    words
}

/// Tells whether the word is the given text.
fn is_word(word: &String, text: &str) -> (same: bool)
    ensures
        same == (word@ == text@),
{
    let other = String::from_str(text);
    *word == other
}

/// The answer to `uci`.
pub fn uci() -> (lines: Vec<String>)
    ensures
        strings(lines@) == identification(),
{
    let mut lines: Vec<String> = Vec::new();
    lines.push(String::from_str("id name Snow Crust"));
    lines.push(String::from_str("id author Ugur Mislina Gul"));
    lines.push(String::from_str("uciok"));
    assert(strings(lines@) =~= identification());
    lines
}

/// No line to print.
fn no_lines() -> (response: UciResponse)
    ensures
        response@ == UciResponseView::Lines(Seq::empty()),
{
    let lines: Vec<String> = Vec::new();
    assert(strings(lines@) =~= Seq::<Seq<char>>::empty());
    UciResponse::Lines(lines)
}

/// One line to print: the words `opening` followed by `rest`.
fn one_line(opening: &str, rest: &str) -> (response: UciResponse)
    ensures
        response@ == UciResponseView::Lines(seq![opening@ + rest@]),
{
    let mut line = String::from_str(opening);
    line.append(rest);
    let mut lines: Vec<String> = Vec::new();
    lines.push(line);
    assert(strings(lines@) =~= seq![opening@ + rest@]);
    UciResponse::Lines(lines)
}

/// The index of the first word `moves` at or after `from`, or the number of
/// words if there is none.
fn find_moves_word(words: &Vec<String>, from: usize) -> (at: usize)
    requires
        from <= words@.len(),
    ensures
        at == moves_word(strings(words@), from as int),
        from <= at <= words@.len(),
{
    let ghost texts = strings(words@);
    let mut at: usize = from;
    while at < words.len()
        invariant
            from <= at <= words@.len(),
            texts == strings(words@),
            moves_word(texts, from as int) == moves_word(texts, at as int),
        decreases words@.len() - at,
    {
        assert(texts[at as int] == words@[at as int]@);
        if is_word(&words[at], "moves") {
            return at;
        }
        at = at + 1;
    }
    at
}

/// Plays the moves that follow the first word `moves` at or after `from`.
fn play_moves(game: &mut Game, words: &Vec<String>, from: usize) -> (response: UciResponse)
    requires
        old(game)@.playable(),
        from <= words@.len(),
    ensures
        final(game)@.consistent(),
        (final(game)@, response@) == after_moves_word(
            old(game)@,
            strings(words@),
            from as int,
        ),
{
    let ghost texts = strings(words@);
    let moves_at = find_moves_word(words, from);
    let mut at: usize = if moves_at < words.len() {
        moves_at + 1
    } else {
        moves_at
    };
    let ghost first = at as int;
    assert(moves_played(old(game)@, texts, first) == moves_played(
        old(game)@,
        texts,
        moves_at + 1,
    ));
    while at < words.len()
        invariant
            first <= at <= words@.len(),
            texts == strings(words@),
            game@.playable(),
            moves_played(old(game)@, texts, first) == moves_played(game@, texts, at as int),
            moves_played(old(game)@, texts, first) == moves_played(
                old(game)@,
                texts,
                moves_word(texts, from as int) + 1,
            ),
        decreases words@.len() - at,
    {
        assert(texts[at as int] == words@[at as int]@);
        if !game.can_accept_move(&words[at]) {
            return UciResponse::Failed(UciFailure::IllegalMove);
        }
        game.accept_move(words[at].clone());
        at = at + 1;
    }
    no_lines()
}

/// Sets up the position that the words after `position fen` describe, and
/// plays the moves that follow it.
pub fn paraphrase_fen_token(game: &mut Game, words: &Vec<String>) -> (response: UciResponse)
    requires
        old(game)@.consistent(),
        words@.len() >= 2,
        strings(words@)[1] == "fen"@,
    ensures
        final(game)@.consistent(),
        (final(game)@, response@) == position_outcome(old(game)@, strings(words@)),
{
    let ghost texts = strings(words@);
    let until = find_moves_word(words, 2);
    let mut fen_string = String::new();
    let mut at: usize = 2;
    proof {
        reveal_strlit(" ");
    }
    while at < until
        invariant
            2 <= at <= until <= words@.len(),
            texts == strings(words@),
            fen_string@ == joined(texts, 2, at as int),
            " "@ == seq![' '],
        decreases until - at,
    {
        assert(texts[at as int] == words@[at as int]@);
        fen_string.append(words[at].as_str());
        fen_string.append(" ");
        at = at + 1;
    }
    if !game.can_build_board_from_fen_string(fen_string.as_str()) {
        return UciResponse::Failed(UciFailure::InvalidPosition);
    }
    game.build_board_from_fen_string(fen_string);
    assert(game@ == set_up_game(old(game)@, fen_position(joined(texts, 2, until as int))));
    play_moves(game, words, 2)
}

/// Sets up the starting position and plays the moves that follow
/// `position startpos`.
pub fn paraphrase_startpos_token(game: &mut Game, words: &Vec<String>) -> (response: UciResponse)
    requires
        old(game)@.consistent(),
        words@.len() >= 2,
        strings(words@)[1] == "startpos"@,
    ensures
        final(game)@.consistent(),
        (final(game)@, response@) == position_outcome(old(game)@, strings(words@)),
{
    proof {
        reveal_strlit("fen");
        reveal_strlit("startpos");
        assert("fen"@.len() != "startpos"@.len());
        assert(strings(words@)[1] != "fen"@);
    }
    game.setup_initial_position();
    assert(game@ == set_up_game(old(game)@, initial_position()));
    play_moves(game, words, 2)
}

/// Follows `position`.
pub fn set_position(game: &mut Game, words: &Vec<String>) -> (response: UciResponse)
    requires
        old(game)@.consistent(),
    ensures
        final(game)@.consistent(),
        (final(game)@, response@) == position_outcome(old(game)@, strings(words@)),
{
    if words.len() < 2 {
        return UciResponse::Failed(UciFailure::InvalidPosition);
    }
    assert(strings(words@)[1] == words@[1]@);
    if is_word(&words[1], "fen") {
        paraphrase_fen_token(game, words)
    } else if is_word(&words[1], "startpos") {
        paraphrase_startpos_token(game, words)
    } else {
        UciResponse::Failed(UciFailure::InvalidPosition)
    }
}

/// Follows `go`: searches for the move to play and names it.
pub fn go(game: &mut Game) -> (response: UciResponse)
    requires
        old(game)@.consistent(),
    ensures
        final(game)@.consistent(),
        (final(game)@, response@) == go_outcome(old(game)@),
{
    if !game.can_find_best_move() {
        return UciResponse::Failed(UciFailure::NothingToSearch);
    }
    let best_move = game.find_best_move();
    one_line("bestmove ", best_move.as_str())
}

/// Follows a line of the protocol: changes the game as the line says and
/// tells the front end what to do.
pub fn uci_command(game: &mut Game, line: &str) -> (response: UciResponse)
    requires
        old(game)@.consistent(),
    ensures
        final(game)@.consistent(),
        (final(game)@, response@) == command_outcome(old(game)@, words_of(line@)),
{
    let words = read_words(line);
    if words.len() == 0 {
        return no_lines();
    }
    assert(strings(words@)[0] == words@[0]@);
    let first_token = &words[0];
    if is_word(first_token, "uci") {
        UciResponse::Lines(uci())
    } else if is_word(first_token, "isready") {
        proof {
            reveal_strlit("");
            assert("readyok"@ + ""@ =~= "readyok"@);
        }
        one_line("readyok", "")
    } else if is_word(first_token, "ucinewgame") {
        no_lines()
    } else if is_word(first_token, "position") {
        set_position(game, &words)
    } else if is_word(first_token, "go") {
        go(game)
    } else if is_word(first_token, "setoption") {
        no_lines()
    } else if is_word(first_token, "quit") {
        UciResponse::Quit
    } else {
        one_line("Unrecognised Token: ", first_token.as_str())
    }
}

} // verus!
