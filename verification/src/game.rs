//! A game in progress: the current position, its legal moves, and the search
//! for the move to play.

use crate::chess_board::fen::{fen_position, is_valid_fen, valid_fen};
use crate::chess_board::setups::initial_position;
use crate::chess_board::{positions, ChessBoard, Position};
use crate::move_generator::MoveGenerator;
use crate::rules::legality::{lemma_legal_has_king, sound_successor, sound_successors};
use crate::rules::start::lemma_initial_position_legal;
use crate::rules::successors::{score_allows_depth, successors};
use crate::searcher::{search_outcome, SearchState, Searcher};
use vstd::prelude::*;

verus! {

/// The depth to which the move to play is searched.
pub const PLAYING_DEPTH: usize = 4;

/// What is known about a game.
pub struct GameState {
    pub position: Position,
    pub legal_moves: Seq<Position>,
    pub search: SearchState,
}

impl GameState {
    /// A position is set up and its legal moves are at hand.
    pub open spec fn playable(self) -> bool {
        &&& self.position.legal()
        &&& self.legal_moves == successors(self.position)
        &&& sound_successors(self.position, self.legal_moves)
    }

    /// The index of the first legal move with the notation `notation`, from
    /// `start` on; the number of legal moves if there is none.
    pub open spec fn first_move_named(self, notation: Seq<char>, start: int) -> int
        decreases self.legal_moves.len() - start,
    {
        if start < 0 || start >= self.legal_moves.len() {
            self.legal_moves.len() as int
        } else if self.legal_moves[start].last_move == notation {
            start
        } else {
            self.first_move_named(notation, start + 1)
        }
    }

    /// No position is set up and no legal moves are at hand, or the game is
    /// playable.
    pub open spec fn consistent(self) -> bool {
        self.position.cells.len() == 0 && self.legal_moves.len() == 0 || self.playable()
    }

    /// Some legal move has the notation `notation`.
    pub open spec fn has_move_named(self, notation: Seq<char>) -> bool {
        self.first_move_named(notation, 0) < self.legal_moves.len()
    }

    /// The move with the notation `notation` can be accepted: the game is
    /// playable, the move is legal, and the score leaves room for the
    /// arithmetic of the next ply.
    pub open spec fn accepts(self, notation: Seq<char>) -> bool {
        &&& self.playable()
        &&& self.has_move_named(notation)
        &&& score_allows_depth(self.position.score, 1)
    }

    /// The game after the legal move with the notation `notation`: the
    /// position is the first legal move of that notation, and the legal
    /// moves are its successors.
    pub open spec fn after_move(self, notation: Seq<char>) -> GameState {
        let next = self.legal_moves[self.first_move_named(notation, 0)];
        GameState { position: next, legal_moves: successors(next), search: self.search }
    }

    /// The move to play can be searched for: the game is playable and the
    /// score leaves room for the arithmetic of the search.
    pub open spec fn can_search(self) -> bool {
        &&& self.playable()
        &&& score_allows_depth(self.position.score, PLAYING_DEPTH as int)
    }
}

/// A game: the current position with its legal moves, a move generator and
/// a searcher.
pub struct Game {
    current_position: ChessBoard,
    legal_moves: Vec<ChessBoard>,
    move_generator: MoveGenerator,
    searcher: Searcher,
}

impl View for Game {
    type V = GameState;

    closed spec fn view(&self) -> GameState {
        GameState {
            position: self.current_position@,
            legal_moves: positions(self.legal_moves@),
            search: self.searcher@,
        }
    }
}

/// Tells whether the score leaves room for the arithmetic of a tree of
/// `depth` plies.
pub fn score_leaves_room(score: i64, depth: usize) -> (room: bool)
    requires
        depth <= 9999,
    ensures
        room == score_allows_depth(score as int, depth as int),
{
    let needed: i64 = (depth as i64 + 2) * 100_000;
    let limit: i64 = i64::MAX - needed;
    -limit <= score && score <= limit
}

impl Game {
    /// A game in which no position is set up yet.
    pub fn new() -> (game: Game)
        ensures
            game@ == (GameState {
                position: Position::blank(),
                legal_moves: Seq::empty(),
                search: SearchState {
                    next_move: Position::blank(),
                    game_status: Seq::empty(),
                    game_result: Seq::empty(),
                },
            }),
            game@.consistent(),
    {
        let game = Game {
            current_position: ChessBoard::new(),
            legal_moves: Vec::new(),
            move_generator: MoveGenerator::new(),
            searcher: Searcher::new(),
        };
        assert(positions(game.legal_moves@) =~= Seq::<Position>::empty());
        game
    }

    /// Sets up the starting position and finds its legal moves.
    pub fn setup_initial_position(&mut self)
        ensures
            final(self)@.position == initial_position(),
            final(self)@.legal_moves == successors(initial_position()),
            final(self)@.search == old(self)@.search,
            final(self)@.playable(),
    {
        self.current_position.setup_initial_position();
        proof {
            lemma_initial_position_legal();
            lemma_legal_has_king(initial_position());
        }
        self.legal_moves = self.move_generator.generate_next_moves_from_board(
            &self.current_position,
        );
    }

    /// Tells whether the text describes a legal position, which can be set
    /// up.
    pub fn can_build_board_from_fen_string(&self, fen_string: &str) -> (able: bool)
        ensures
            able == (valid_fen(fen_string@) && fen_position(fen_string@).legal()),
    {
        if !is_valid_fen(fen_string) {
            return false;
        }
        let mut board = ChessBoard::new();
        board.build_board_from_fen_string(String::from_str(fen_string));
        self.move_generator.is_legal_position(&board)
    }

    /// Sets up the position that the description stands for and finds its
    /// legal moves.
    pub fn build_board_from_fen_string(&mut self, fen_string: String)
        requires
            valid_fen(fen_string@),
            fen_position(fen_string@).legal(),
        ensures
            final(self)@.position == fen_position(fen_string@),
            final(self)@.legal_moves == successors(fen_position(fen_string@)),
            final(self)@.search == old(self)@.search,
            final(self)@.playable(),
    {
        self.current_position.build_board_from_fen_string(fen_string);
        proof {
            lemma_legal_has_king(self.current_position@);
        }
        self.legal_moves = self.move_generator.generate_next_moves_from_board(
            &self.current_position,
        );
    }

    /// The index of the first legal move with the notation `move_notated`,
    /// or the number of legal moves if there is none.
    fn find_move(&self, move_notated: &String) -> (index: usize)
        ensures
            index == self@.first_move_named(move_notated@, 0),
            index <= self.legal_moves@.len(),
    {
        let mut index: usize = 0;
        while index < self.legal_moves.len()
            invariant
                index <= self.legal_moves@.len(),
                self@.first_move_named(move_notated@, 0) == self@.first_move_named(
                    move_notated@,
                    index as int,
                ),
            decreases self.legal_moves@.len() - index,
        {
            assert(self@.legal_moves[index as int] == self.legal_moves@[index as int]@);
            if *self.legal_moves[index].get_last_move() == *move_notated {
                return index;
            }
            index = index + 1;
        }
        index
    }

    /// Tells whether the move with the notation `move_notated` can be
    /// accepted.
    pub fn can_accept_move(&self, move_notated: &String) -> (acceptable: bool)
        requires
            self@.consistent(),
        ensures
            acceptable == self@.accepts(move_notated@),
    {
        self.find_move(move_notated) < self.legal_moves.len() && score_leaves_room(
            self.current_position.get_score(),
            1,
        )
    }

    /// Plays the legal move with the notation `move_notated` and finds the
    /// legal moves of the position that it leads to.
    pub fn accept_move(&mut self, move_notated: String)
        requires
            old(self)@.accepts(move_notated@),
        ensures
            final(self)@ == old(self)@.after_move(move_notated@),
            final(self)@.playable(),
    {
        let index = self.find_move(&move_notated);
        proof {
            assert(self@.legal_moves[index as int] == self.legal_moves@[index as int]@);
            assert(sound_successor(self@.position, self@.legal_moves[index as int]));
        }
        self.current_position = self.legal_moves[index].clone();
        proof {
            lemma_legal_has_king(self.current_position@);
        }
        self.legal_moves = self.move_generator.generate_next_moves_from_board(
            &self.current_position,
        );
    }

    /// Tells whether the move to play can be searched for.
    pub fn can_find_best_move(&self) -> (able: bool)
        requires
            self@.consistent(),
        ensures
            able == self@.can_search(),
    {
        proof {
            if self@.playable() {
                assert(self@.position.well_formed());
            }
        }
        self.current_position.is_well_formed() && score_leaves_room(
            self.current_position.get_score(),
            PLAYING_DEPTH,
        )
    }

    /// Searches for the move to play, by alpha-beta pruning to the playing
    /// depth, and returns the notation of the move that the searcher now
    /// holds. In a position without legal moves the searcher records the end
    /// of the game and keeps the move that it held.
    pub fn find_best_move(&mut self) -> (best_move: String)
        requires
            old(self)@.can_search(),
        ensures
            final(self)@.position == old(self)@.position,
            final(self)@.legal_moves == old(self)@.legal_moves,
            final(self)@.search == search_outcome(
                old(self)@.search,
                old(self)@.position,
                PLAYING_DEPTH as nat,
            ),
            final(self)@.playable(),
            best_move@ == final(self)@.search.next_move.last_move,
    {
        self.searcher.run_alpha_beta_pruning(&self.current_position, PLAYING_DEPTH);
        self.searcher.get_next_move_notation()
    }

    /// The status of the game as the last search left it: `Finished` once a
    /// search has found no legal move.
    pub fn game_status(&self) -> (status: String)
        ensures
            status@ == self@.search.game_status,
    {
        self.searcher.get_game_status()
    }

    /// The result of the game as the last search left it.
    pub fn game_result(&self) -> (result: String)
        ensures
            result@ == self@.search.game_result,
    {
        self.searcher.get_game_result()
    }
}

} // verus!
