//! Search of the tree of legal moves to a fixed depth.
//!
//! Two algorithms choose the move: plain negamax, which looks at every
//! position of the tree, and alpha-beta pruning, which leaves out what cannot
//! change the choice. Both value a position for the side that is to move in
//! it, and both choose the first move of the best value.

use crate::chess_board::{positions, ChessBoard, Position};
use crate::move_generator::MoveGenerator;
use crate::rules::legality::{lemma_legal_has_king, sound_successor, sound_successors};
use crate::rules::successors::{in_check, score_allows_depth, successors};
use vstd::prelude::*;

verus! {

/// The greatest depth that can be searched: beyond it the value of a mate
/// would not fit.
pub const MAX_SEARCH_DEPTH: usize = 9999;

/// The value of a position in which the mover is mated, with `depth` plies
/// left to search: the more plies are left, the closer to the root the mate
/// is, and the lower its value.
pub open spec fn mated_value(depth: int) -> int {
    i64::MIN + 10000 - depth
}

/// The value of a position without legal moves: a loss for the mover if the
/// mover is in check, a draw otherwise.
pub open spec fn terminal_value(p: Position, depth: int) -> int {
    if in_check(p.cells) {
        mated_value(depth)
    } else {
        0
    }
}

/// The value of `p` for the side to move, found by looking `depth` plies
/// ahead: the score of `p` at depth 0, the terminal value if there is no
/// legal move, else the best of the negated values of the successors.
pub open spec fn negamax_value(p: Position, depth: nat) -> int
    decreases depth, 0nat,
{
    if depth == 0 {
        p.score
    } else if successors(p).len() == 0 {
        terminal_value(p, depth as int)
    } else {
        best_value(successors(p), (depth - 1) as nat, successors(p).len() as int)
    }
}

/// What the move to `next` is worth to the side that makes it.
pub open spec fn reply_value(next: Position, depth: nat) -> int
    decreases depth, 1nat,
{
    -negamax_value(next, depth)
}

/// The best of the values of the moves to the first `count` positions of
/// the list, and at least the lowest value that a search starts from.
pub open spec fn best_value(list: Seq<Position>, depth: nat, count: int) -> int
    decreases depth, 2 + count,
{
    if count <= 0 || count > list.len() {
        i64::MIN + 1
    } else {
        let earlier = best_value(list, depth, count - 1);
        let value = reply_value(list[count - 1], depth);
        if value > earlier {
            value
        } else {
            earlier
        }
    }
}

/// The index, among the first `count` positions of the list, of the first
/// move of the best value; -1 if no move is worth more than the lowest
/// value that a search starts from.
pub open spec fn best_index(list: Seq<Position>, depth: nat, count: int) -> int
    decreases count,
{
    if count <= 0 || count > list.len() {
        -1
    } else if reply_value(list[count - 1], depth) > best_value(list, depth, count - 1) {
        count - 1
    } else {
        best_index(list, depth, count - 1)
    }
}

/// The value lies in the range of the values of a search of `depth` plies:
/// no lower than a mate of the mover now, no higher than a mate of the
/// opponent one ply on.
pub open spec fn in_value_range(value: int, depth: int) -> bool {
    mated_value(depth) <= value <= -mated_value(depth) - 1
}

/// What a pruned search owes about its result: inside the window it is the
/// true value, at or below the window it is no less than the true value, at
/// or above the window it is no more.
pub open spec fn fail_soft(result: int, value: int, alpha: int, beta: int) -> bool {
    &&& result <= alpha ==> value <= result
    &&& result >= beta ==> value >= result
    &&& alpha < result < beta ==> result == value
}

/// The value of `p` for the side that is to move at the root of the search:
/// the value for the mover where the root's side is to move, its negation
/// where the other side is.
pub open spec fn root_side_value(p: Position, depth: nat, maximizing: bool) -> int {
    if maximizing {
        negamax_value(p, depth)
    } else {
        -negamax_value(p, depth)
    }
}

/// The text that names the result of a game that has ended in `p`.
pub open spec fn result_text(p: Position) -> Seq<char> {
    if in_check(p.cells) {
        if p.white_to_move {
            "Black Won!"@
        } else {
            "White Won!"@
        }
    } else {
        "Draw"@
    }
}

/// What a searcher has found.
pub struct SearchState {
    pub next_move: Position,
    pub game_status: Seq<char>,
    pub game_result: Seq<char>,
}

/// What a search of `depth` plies from `p` leaves of the state `before`.
///
/// At depth 0 nothing is searched and nothing changes. In a position without
/// legal moves the game is finished: the status says so and the result names
/// the winner or the draw. Otherwise the chosen move is the first successor
/// of the best value.
pub open spec fn search_outcome(before: SearchState, p: Position, depth: nat) -> SearchState {
    let list = successors(p);
    if depth == 0 {
        before
    } else if list.len() == 0 {
        SearchState {
            next_move: before.next_move,
            game_status: "Finished"@,
            game_result: result_text(p),
        }
    } else {
        SearchState {
            next_move: list[best_index(list, (depth - 1) as nat, list.len() as int)],
            ..before
        }
    }
}

/// A search of `depth` plies from `p` has a move to choose, and the move
/// that it chooses is one of the legal successors of `p`: if the search looks
/// at least one ply ahead and `p` has a legal move, the index of the chosen
/// move lies in the list of successors.
pub open spec fn choice_is_a_successor(p: Position, depth: nat) -> bool {
    depth > 0 && successors(p).len() > 0 ==> 0 <= best_index(
        successors(p),
        (depth - 1) as nat,
        successors(p).len() as int,
    ) < successors(p).len()
}

/// The position can be searched to `depth`: it is legal, the depth is within
/// the limit and the score leaves room for the arithmetic.
pub open spec fn searchable(p: Position, depth: int) -> bool {
    &&& p.legal()
    &&& 0 <= depth <= MAX_SEARCH_DEPTH
    &&& score_allows_depth(p.score, depth)
}

/// The best value over more moves is no lower.
pub proof fn lemma_best_value_grows(list: Seq<Position>, depth: nat, count: int, more: int)
    requires
        0 <= count <= more <= list.len(),
    ensures
        best_value(list, depth, count) <= best_value(list, depth, more),
        i64::MIN + 1 <= best_value(list, depth, count),
    decreases more - count,
{
    if count < more {
        lemma_best_value_grows(list, depth, count + 1, more);
    }
    lemma_best_value_floor(list, depth, count);
}

/// The best value is never below the value that a search starts from.
pub proof fn lemma_best_value_floor(list: Seq<Position>, depth: nat, count: int)
    ensures
        i64::MIN + 1 <= best_value(list, depth, count),
    decreases count,
{
    if 0 < count <= list.len() {
        lemma_best_value_floor(list, depth, count - 1);
    }
}

/// A position without legal moves ends the game. It is valued as a loss for
/// the mover if the mover is in check, and as a draw, with value 0,
/// otherwise; and a search from it reports that the game is finished, won
/// by the side that is not to move if the mover is in check and drawn
/// otherwise.
pub proof fn lemma_terminal_positions(before: SearchState, p: Position, depth: nat)
    requires
        depth > 0,
        successors(p).len() == 0,
    ensures
        in_check(p.cells) ==> negamax_value(p, depth) == mated_value(depth as int),
        !in_check(p.cells) ==> negamax_value(p, depth) == 0,
        search_outcome(before, p, depth).next_move == before.next_move,
        search_outcome(before, p, depth).game_status == "Finished"@,
        in_check(p.cells) && p.white_to_move ==> search_outcome(before, p, depth).game_result
            == "Black Won!"@,
        in_check(p.cells) && !p.white_to_move ==> search_outcome(before, p, depth).game_result
            == "White Won!"@,
        !in_check(p.cells) ==> search_outcome(before, p, depth).game_result == "Draw"@,
{
}

/// A searcher: the move generator it uses and what the last search found.
pub struct Searcher {
    move_generator: MoveGenerator,
    pub next_move: ChessBoard,
    pub game_status: String,
    pub game_result: String,
}

impl View for Searcher {
    type V = SearchState;

    closed spec fn view(&self) -> SearchState {
        SearchState {
            next_move: self.next_move@,
            game_status: self.game_status@,
            game_result: self.game_result@,
        }
    }
}

impl Searcher {
    /// A searcher that has found nothing yet.
    pub fn new() -> (searcher: Searcher)
        ensures
            searcher@ == (SearchState {
                next_move: Position::blank(),
                game_status: Seq::empty(),
                game_result: Seq::empty(),
            }),
    {
        Searcher {
            move_generator: MoveGenerator::new(),
            next_move: ChessBoard::new(),
            game_status: String::new(),
            game_result: String::new(),
        }
    }

    /// The notation of the move that the last search has chosen.
    pub fn get_next_move_notation(&self) -> (notation: String)
        ensures
            notation@ == self@.next_move.last_move,
    {
        self.next_move.get_last_move().clone()
    }

    /// The status of the game as the last search left it: `Finished` once a
    /// search has found no legal move.
    pub fn get_game_status(&self) -> (status: String)
        ensures
            status@ == self@.game_status,
    {
        self.game_status.clone()
    }

    /// The result of the game as the last search left it.
    pub fn get_game_result(&self) -> (result: String)
        ensures
            result@ == self@.game_result,
    {
        self.game_result.clone()
    }

    /// Searches `depth` plies from `current_node` by plain negamax and
    /// records the chosen move, or the end of the game. At depth 0 there is
    /// nothing to search, whatever the position.
    pub fn run_negamax(&mut self, current_node: &ChessBoard, depth: usize)
        requires
            depth > 0 ==> searchable(current_node@, depth as int),
        ensures
            final(self)@ == search_outcome(old(self)@, current_node@, depth as nat),
            choice_is_a_successor(current_node@, depth as nat),
    {
        if depth > 0 {
            self.negamax(current_node, depth, true);
        }
    }

    /// Records that the game has ended in `current_node`.
    fn record_game_over(&mut self, current_node: &ChessBoard, check: bool)
        requires
            check == in_check(current_node@.cells),
        ensures
            final(self)@ == (SearchState {
                next_move: old(self)@.next_move,
                game_status: "Finished"@,
                game_result: result_text(current_node@),
            }),
    {
        self.game_status = String::from_str("Finished");
        if check {
            if current_node.get_current_color() {
                self.game_result = String::from_str("Black Won!");
            } else {
                self.game_result = String::from_str("White Won!");
            }
        } else {
            self.game_result = String::from_str("Draw");
        }
    }

    /// The value of `current_node` for the side to move, `depth` plies
    /// ahead. At the root the chosen move or the end of the game is
    /// recorded; elsewhere the searcher's state stays.
    fn negamax(&mut self, current_node: &ChessBoard, depth: usize, root: bool) -> (value: i64)
        requires
            searchable(current_node@, depth as int),
        ensures
            value == negamax_value(current_node@, depth as nat),
            in_value_range(value as int, depth as int),
            root ==> final(self)@ == search_outcome(old(self)@, current_node@, depth as nat),
            root ==> choice_is_a_successor(current_node@, depth as nat),
            !root ==> final(self)@ == old(self)@,
        decreases depth,
    {
        if depth == 0 {
            return current_node.get_score();
        }
        proof {
            lemma_legal_has_king(current_node@);
        }
        let next_moves: Vec<ChessBoard> = self.move_generator.generate_next_moves_from_board(
            current_node,
        );
        let ghost list = successors(current_node@);
        let ghost below = (depth - 1) as nat;
        if next_moves.len() == 0 {
            let check = self.move_generator.detect_check(current_node);
            if root {
                self.record_game_over(current_node, check);
            }
            if check {
                return i64::MIN + 10000 - depth as i64;
            } else {
                return 0;
            }
        }
        let mut best_move: usize = 0;
        let mut max: i64 = i64::MIN + 1;
        let mut taken: usize = 0;
        while taken < next_moves.len()
            invariant
                taken <= next_moves@.len(),
                depth > 0,
                below == (depth - 1) as nat,
                list == successors(current_node@),
                list == positions(next_moves@),
                list.len() > 0,
                sound_successors(current_node@, list),
                searchable(current_node@, depth as int),
                self@ == old(self)@,
                max == best_value(list, below, taken as int),
                taken > 0 ==> in_value_range(max as int, depth as int),
                taken > 0 ==> best_move == best_index(list, below, taken as int),
                best_move < next_moves@.len(),
            decreases next_moves@.len() - taken,
        {
            proof {
                assert(sound_successor(current_node@, list[taken as int]));
                assert(list[taken as int] == next_moves@[taken as int]@);
            }
            let chess_move_score: i64 = -self.negamax(&next_moves[taken], depth - 1, false);
            proof {
                assert(chess_move_score == reply_value(list[taken as int], below));
                let earlier = best_value(list, below, taken as int);
                assert(best_value(list, below, taken + 1) == if chess_move_score > earlier {
                    chess_move_score as int
                } else {
                    earlier
                });
            }
            if chess_move_score > max {
                best_move = taken;
                max = chess_move_score;
            }
            taken = taken + 1;
        }
        if root {
            self.next_move = next_moves[best_move].clone();
        }
        max
    }

    /// Searches `depth` plies from `current_node` with alpha-beta pruning
    /// and records the chosen move, or the end of the game: the same move
    /// and the same end as plain negamax finds. At depth 0 there is nothing
    /// to search, whatever the position.
    pub fn run_alpha_beta_pruning(&mut self, current_node: &ChessBoard, depth: usize)
        requires
            depth > 0 ==> searchable(current_node@, depth as int),
        ensures
            final(self)@ == search_outcome(old(self)@, current_node@, depth as nat),
            choice_is_a_successor(current_node@, depth as nat),
    {
        let alpha: i64 = i64::MIN + 1;
        let beta: i64 = i64::MAX;
        if depth == 0 {
        } else if depth % 2 == 0 {
            self.alpha_beta_pruning(current_node, depth, alpha, beta, true, true, true);
        } else {
            self.alpha_beta_pruning(current_node, depth, alpha, beta, true, true, false);
        }
    }

    /// The value of `current_node` for the side that is to move at the root,
    /// `depth` plies ahead, as far as the window from `alpha` to `beta` asks
    /// for it. `maximizing_player` says whether the root's side is to move
    /// here, `even` whether the leaves lie an even number of plies below the
    /// root. At the root the value is the one that plain negamax finds, and
    /// the chosen move or the end of the game is recorded; elsewhere the
    /// searcher's state stays.
    fn alpha_beta_pruning(
        &mut self,
        current_node: &ChessBoard,
        depth: usize,
        alpha: i64,
        beta: i64,
        maximizing_player: bool,
        root: bool,
        even: bool,
    ) -> (value: i64)
        requires
            searchable(current_node@, depth as int),
            i64::MIN + 1 <= alpha < beta,
            even == (maximizing_player == (depth % 2 == 0)),
            root ==> maximizing_player && alpha == i64::MIN + 1 && beta == i64::MAX,
        ensures
            fail_soft(
                value as int,
                root_side_value(current_node@, depth as nat, maximizing_player),
                alpha as int,
                beta as int,
            ),
            in_value_range(
                if maximizing_player {
                    value as int
                } else {
                    -value
                },
                depth as int,
            ),
            root ==> value == negamax_value(current_node@, depth as nat),
            root ==> final(self)@ == search_outcome(old(self)@, current_node@, depth as nat),
            root ==> choice_is_a_successor(current_node@, depth as nat),
            !root ==> final(self)@ == old(self)@,
        decreases depth,
    {
        if depth == 0 {
            if even {
                return current_node.get_score();
            } else {
                return -current_node.get_score();
            }
        }
        proof {
            lemma_legal_has_king(current_node@);
        }
        let next_moves: Vec<ChessBoard> = self.move_generator.generate_next_moves_from_board(
            current_node,
        );
        let ghost list = successors(current_node@);
        let ghost below = (depth - 1) as nat;
        if next_moves.len() == 0 {
            let check = self.move_generator.detect_check(current_node);
            if root {
                self.record_game_over(current_node, check);
            }
            if !check {
                return 0;
            } else if maximizing_player {
                return i64::MIN + 10000 - depth as i64;
            } else {
                return i64::MAX - 9999 + depth as i64;
            }
        }
        let mut v: i64;
        let mut taken: usize = 0;
        if maximizing_player {
            v = i64::MIN + 1;
            let mut window_alpha: i64 = alpha;
            let mut best_move: usize = 0;
            let mut best_move_score: i64 = i64::MIN;
            while taken < next_moves.len() && window_alpha < beta
                invariant
                    taken <= next_moves@.len(),
                    depth > 0,
                    below == (depth - 1) as nat,
                    list == successors(current_node@),
                    list == positions(next_moves@),
                    list.len() > 0,
                    sound_successors(current_node@, list),
                    searchable(current_node@, depth as int),
                    maximizing_player,
                    even == (maximizing_player == (depth % 2 == 0)),
                    root ==> alpha == i64::MIN + 1 && beta == i64::MAX,
                    i64::MIN + 1 <= alpha < beta,
                    self@ == old(self)@,
                    v >= i64::MIN + 1,
                    window_alpha == if v > alpha {
                        v
                    } else {
                        alpha
                    },
                    fail_soft(
                        v as int,
                        best_value(list, below, taken as int),
                        alpha as int,
                        beta as int,
                    ),
                    taken == 0 ==> v == i64::MIN + 1,
                    taken > 0 ==> in_value_range(v as int, depth as int),
                    root ==> v == best_value(list, below, taken as int),
                    root && taken > 0 ==> best_move == best_index(list, below, taken as int),
                    root ==> best_move_score == if taken == 0 {
                        i64::MIN
                    } else {
                        v
                    },
                    best_move < next_moves@.len(),
                decreases next_moves@.len() - taken,
            {
                proof {
                    assert(sound_successor(current_node@, list[taken as int]));
                    assert(list[taken as int] == next_moves@[taken as int]@);
                    lemma_best_value_floor(list, below, taken as int);
                }
                let reply: i64 = self.alpha_beta_pruning(
                    &next_moves[taken],
                    depth - 1,
                    window_alpha,
                    beta,
                    false,
                    false,
                    even,
                );
                proof {
                    let earlier = best_value(list, below, taken as int);
                    let worth = reply_value(list[taken as int], below);
                    assert(worth == -negamax_value(list[taken as int], below));
                    assert(best_value(list, below, taken + 1) == if worth > earlier {
                        worth
                    } else {
                        earlier
                    });
                }
                if reply > v {
                    v = reply;
                }
                if v > window_alpha {
                    window_alpha = v;
                }
                if root {
                    if v > best_move_score {
                        best_move_score = v;
                        best_move = taken;
                    }
                }
                taken = taken + 1;
            }
            proof {
                lemma_best_value_grows(list, below, taken as int, list.len() as int);
            }
            if root {
                self.next_move = next_moves[best_move].clone();
            }
        } else {
            v = i64::MAX;
            let mut window_beta: i64 = beta;
            while taken < next_moves.len() && alpha < window_beta
                invariant
                    taken <= next_moves@.len(),
                    depth > 0,
                    below == (depth - 1) as nat,
                    list == successors(current_node@),
                    list == positions(next_moves@),
                    list.len() > 0,
                    sound_successors(current_node@, list),
                    searchable(current_node@, depth as int),
                    !maximizing_player,
                    !root,
                    even == (maximizing_player == (depth % 2 == 0)),
                    i64::MIN + 1 <= alpha < beta,
                    self@ == old(self)@,
                    window_beta == if v < beta {
                        v
                    } else {
                        beta
                    },
                    fail_soft(
                        v as int,
                        -best_value(list, below, taken as int),
                        alpha as int,
                        beta as int,
                    ),
                    taken == 0 ==> v == i64::MAX,
                    taken > 0 ==> in_value_range(-v, depth as int),
                decreases next_moves@.len() - taken,
            {
                proof {
                    assert(sound_successor(current_node@, list[taken as int]));
                    assert(list[taken as int] == next_moves@[taken as int]@);
                    lemma_best_value_floor(list, below, taken as int);
                }
                let reply: i64 = self.alpha_beta_pruning(
                    &next_moves[taken],
                    depth - 1,
                    alpha,
                    window_beta,
                    true,
                    false,
                    even,
                );
                proof {
                    let earlier = best_value(list, below, taken as int);
                    let worth = reply_value(list[taken as int], below);
                    assert(worth == -negamax_value(list[taken as int], below));
                    assert(best_value(list, below, taken + 1) == if worth > earlier {
                        worth
                    } else {
                        earlier
                    });
                }
                if reply < v {
                    v = reply;
                }
                if v < window_beta {
                    window_beta = v;
                }
                taken = taken + 1;
            }
            proof {
                lemma_best_value_grows(list, below, taken as int, list.len() as int);
            }
        }
        v
    }
}

/// Plain negamax and alpha-beta pruning are held to the same outcome, so
/// for any position and depth they leave the same chosen move and the same
/// record of the game's end: two states that both are the outcome of a
/// search from the same state are equal.
pub proof fn lemma_searches_agree(
    before: SearchState,
    by_negamax: SearchState,
    by_alpha_beta: SearchState,
    p: Position,
    depth: nat,
)
    requires
        by_negamax == search_outcome(before, p, depth),
        by_alpha_beta == search_outcome(before, p, depth),
    ensures
        by_alpha_beta.next_move == by_negamax.next_move,
        by_alpha_beta.game_status == by_negamax.game_status,
        by_alpha_beta.game_result == by_negamax.game_result,
{
}

} // verus!
