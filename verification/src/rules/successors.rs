//! The positions that legally follow a position.
//!
//! Every piece of the mover is taken in the order of the grid, every step of
//! its table from the last to the first, and every square along the step in
//! the order of the walk. A move that leaves the mover's own king attacked is
//! dropped; every other move hands the position over to the other side.

use super::attack::{attacked, direction_table, is_sliding};
use crate::chess_board::evaluation::CASTLING_BONUS;
use crate::chess_board::{is_border, is_mover_piece, Position};
use vstd::prelude::*;

verus! {

/// No ply changes the score by more than this.
pub const MAX_PLY_GAIN: i64 = 100_000;

/// The score leaves room for the arithmetic of one more ply.
pub open spec fn score_fits(score: int) -> bool {
    -(i64::MAX - 2 * MAX_PLY_GAIN) <= score <= i64::MAX - 2 * MAX_PLY_GAIN
}

/// The cell of the mover's left rook before it has moved.
pub const LEFT_ROOK_HOME: i64 = 91;

/// The cell of the mover's right rook before it has moved.
pub const RIGHT_ROOK_HOME: i64 = 98;

/// The first index at or after `start` whose cell holds `piece`, or the
/// length of the grid if there is none.
pub open spec fn first_index_of(cells: Seq<char>, piece: char, start: int) -> int
    decreases cells.len() - start,
{
    if start < 0 || start >= cells.len() {
        cells.len() as int
    } else if cells[start] == piece {
        start
    } else {
        first_index_of(cells, piece, start + 1)
    }
}

/// The mover has a king on the board.
pub open spec fn has_mover_king(cells: Seq<char>) -> bool {
    first_index_of(cells, 'K', 0) < cells.len()
}

/// The cell of the mover's king: the first one in the order of the grid.
pub open spec fn king_square(cells: Seq<char>) -> int {
    first_index_of(cells, 'K', 0)
}

/// The mover's king is attacked by the opponent.
pub open spec fn in_check(cells: Seq<char>) -> bool {
    attacked(cells, king_square(cells), false)
}

/// The position handed over to the other side, unless the mover's king is
/// attacked in it.
pub open spec fn handed_over_if_safe(made: Position) -> Seq<Position> {
    if in_check(made.cells) {
        Seq::empty()
    } else {
        seq![made.rotated()]
    }
}

/// The four promotions of the pawn that has arrived on `square`, each handed
/// over to the other side: rook, knight, bishop, queen.
pub open spec fn promotions(made: Position, square: int) -> Seq<Position> {
    seq![
        made.promoted(square, 'R').rotated(),
        made.promoted(square, 'N').rotated(),
        made.promoted(square, 'B').rotated(),
        made.promoted(square, 'Q').rotated(),
    ]
}

/// The cell lies on the far rank, where pawns are promoted.
pub open spec fn is_promotion_square(square: int) -> bool {
    21 <= square <= 28
}

/// The cell lies on the rank from which the mover's pawns start.
pub open spec fn is_pawn_home(square: int) -> bool {
    81 <= square <= 88
}

/// What follows once a pawn has moved to `to` by a push or a capture:
/// nothing if the king is attacked, the four promotions on the far rank, the
/// position handed over otherwise.
pub open spec fn pawn_arrival(made: Position, to: int) -> Seq<Position> {
    if in_check(made.cells) {
        Seq::empty()
    } else if is_promotion_square(to) {
        promotions(made, to)
    } else {
        seq![made.rotated()]
    }
}

/// The positions that follow from the pawn on `from` taking the step
/// `direction`.
///
/// A push needs an empty destination; a double push also needs the pawn on
/// its home rank and an empty square in between, and leaves the passed
/// square, named from the other side, as the en-passant target. A diagonal
/// step onto the live en-passant target captures en passant; any other
/// diagonal step needs an opposing piece to capture.
pub open spec fn pawn_successors(p: Position, from: int, direction: int) -> Seq<Position> {
    let to = from + direction;
    let target = p.cells[to];
    let aged = p.aged();
    if is_border(target) || is_mover_piece(target) {
        Seq::empty()
    } else if direction == -10 {
        if target != '.' {
            Seq::empty()
        } else {
            pawn_arrival(aged.moved(from, to), to)
        }
    } else if direction == -20 {
        if target != '.' || !is_pawn_home(from) || p.cells[from - 10] != '.' {
            Seq::empty()
        } else {
            handed_over_if_safe(aged.with_en_passant(119 - (from - 10)).moved(from, to))
        }
    } else if aged.en_passant_active() && to == aged.en_passant_square {
        handed_over_if_safe(aged.captured_en_passant(from, to))
    } else if target == '.' {
        Seq::empty()
    } else {
        pawn_arrival(aged.moved(from, to), to)
    }
}

/// The rook on `from` has gone to `to`, and the conditions under which the
/// move is looked at for castling hold: the king is not attacked after the
/// rook's move and the rook has captured nothing.
pub open spec fn rook_move_probes_castling(p: Position, from: int, to: int) -> bool {
    !in_check(p.aged().moved(from, to).cells) && p.cells[to] == '.'
}

/// The position after the rook on `from` has gone to `to`. A rook that
/// leaves its home cell for an empty square, without the king being attacked
/// afterwards, gives up the castling right of its side of the board.
pub open spec fn after_rook_move(p: Position, from: int, to: int) -> Position {
    let made = p.aged().moved(from, to);
    if rook_move_probes_castling(p, from, to) {
        if from == LEFT_ROOK_HOME && made.left_castling() {
            made.with_castling(false, made.right_castling())
        } else if from == RIGHT_ROOK_HOME && made.right_castling() {
            made.with_castling(made.left_castling(), false)
        } else {
            made
        }
    } else {
        made
    }
}

/// The position after castling: the rook has gone from its home to
/// `rook_to`, the king from `king_from` over the rook to `king_to`, both
/// castling rights of the mover are gone and the bonus is added.
pub open spec fn castled(p: Position, rook_from: int, rook_to: int, king_from: int, king_to: int) -> Position {
    let made = p.aged().moved(rook_from, rook_to).moved(king_from, king_to).with_castling(
        false,
        false,
    );
    Position { score: made.score + CASTLING_BONUS, ..made }
}

/// The castling that the rook's move from `from` to `to` stands for, handed
/// over to the other side, if there is one.
///
/// The rook leaves its home cell along the home rank for an empty square
/// next to the king, the mover still has the castling right of that side,
/// and the king is attacked neither after the rook's move nor on the square
/// where it ends up, nor is the rook's square attacked.
pub open spec fn castling_successors(p: Position, from: int, to: int) -> Seq<Position> {
    let made = p.aged().moved(from, to);
    if rook_move_probes_castling(p, from, to) {
        if from == LEFT_ROOK_HOME && made.left_castling() {
            if p.cells[to + 1] == 'K' && LEFT_ROOK_HOME <= to <= RIGHT_ROOK_HOME {
                castling_if_safe(p, from, to, to + 1, to - 1)
            } else {
                Seq::empty()
            }
        } else if from == RIGHT_ROOK_HOME && made.right_castling() {
            if p.cells[to - 1] == 'K' && LEFT_ROOK_HOME <= to <= RIGHT_ROOK_HOME {
                castling_if_safe(p, from, to, to - 1, to + 1)
            } else {
                Seq::empty()
            }
        } else {
            Seq::empty()
        }
    } else {
        Seq::empty()
    }
}

/// The castled position handed over, unless the king's final square or the
/// rook's square is attacked.
pub open spec fn castling_if_safe(
    p: Position,
    rook_from: int,
    rook_to: int,
    king_from: int,
    king_to: int,
) -> Seq<Position> {
    let done = castled(p, rook_from, rook_to, king_from, king_to);
    if !in_check(done.cells) && !attacked(p.aged().moved(rook_from, rook_to).cells, rook_to, false) {
        seq![done.rotated()]
    } else {
        Seq::empty()
    }
}

/// The positions that follow from the piece on `from`, not a pawn, landing
/// on `to`. A king's move gives up both castling rights. A rook's move may
/// stand for castling, which then comes first.
pub open spec fn landing_successors(p: Position, from: int, to: int) -> Seq<Position> {
    let piece = p.cells[from];
    let made = p.aged().moved(from, to);
    if piece == 'K' {
        handed_over_if_safe(made.with_castling(false, false))
    } else if piece == 'R' {
        castling_successors(p, from, to) + handed_over_if_safe(after_rook_move(p, from, to))
    } else {
        handed_over_if_safe(made)
    }
}

/// The positions that follow from the piece on `from`, not a pawn, walking
/// in steps of `direction`, once it has passed `at`. The walk ends before the
/// border and before a piece of the mover; it ends after a capture and, for
/// a knight or a king, after the first step.
pub open spec fn ray_successors(p: Position, from: int, direction: int, at: int) -> Seq<Position>
    decreases
        (if direction > 0 {
            p.cells.len() - at
        } else {
            at
        }),
{
    let to = at + direction;
    if direction == 0 || to < 0 || to >= p.cells.len() {
        Seq::empty()
    } else if is_border(p.cells[to]) || is_mover_piece(p.cells[to]) {
        Seq::empty()
    } else if is_sliding(p.cells[from]) && p.cells[to] == '.' {
        landing_successors(p, from, to) + ray_successors(p, from, direction, to)
    } else {
        landing_successors(p, from, to)
    }
}

/// The positions that follow from the piece on `from` taking one of the
/// first `remaining` steps of its table, the last of them first.
pub open spec fn step_successors(p: Position, from: int, remaining: int) -> Seq<Position>
    decreases remaining,
{
    if remaining <= 0 {
        Seq::empty()
    } else {
        let direction = direction_table(p.cells[from])[remaining - 1];
        let first = if p.cells[from] == 'P' {
            pawn_successors(p, from, direction)
        } else {
            ray_successors(p, from, direction, from)
        };
        first + step_successors(p, from, remaining - 1)
    }
}

/// The positions that follow from moving what stands on `from`: none unless
/// it is a piece of the mover.
pub open spec fn square_successors(p: Position, from: int) -> Seq<Position> {
    if is_mover_piece(p.cells[from]) {
        step_successors(p, from, direction_table(p.cells[from]).len() as int)
    } else {
        Seq::empty()
    }
}

/// The positions that follow from moving a piece that stands on `from` or
/// on a later cell of the grid.
pub open spec fn successors_from(p: Position, from: int) -> Seq<Position>
    decreases p.cells.len() - from,
{
    if from < 0 || from >= p.cells.len() {
        Seq::empty()
    } else {
        square_successors(p, from) + successors_from(p, from + 1)
    }
}

/// Every position that legally follows `p`, in the order of generation.
pub open spec fn successors(p: Position) -> Seq<Position> {
    successors_from(p, 0)
}

/// The score leaves room for the arithmetic of a tree of `depth` plies.
pub open spec fn score_allows_depth(score: int, depth: int) -> bool {
    -(i64::MAX - (depth + 2) * MAX_PLY_GAIN) <= score <= i64::MAX - (depth + 2) * MAX_PLY_GAIN
}

/// The number of leaves of the tree of legal moves of depth `depth` below
/// `p`.
pub open spec fn perft(p: Position, depth: nat) -> nat
    decreases depth, 0nat,
{
    if depth == 0 {
        1
    } else {
        perft_sum(successors(p), (depth - 1) as nat)
    }
}

/// The leaves of the trees of depth `depth` below the positions of a list,
/// taken together.
pub open spec fn perft_sum(list: Seq<Position>, depth: nat) -> nat
    decreases depth, 1 + list.len(),
{
    if list.len() == 0 {
        0
    } else {
        perft_sum(list.drop_last(), depth) + perft(list.last(), depth)
    }
}

/// The trees of depth 0 below a list of positions have one leaf each.
pub proof fn lemma_perft_sum_of_leaves(list: Seq<Position>)
    ensures
        perft_sum(list, 0) == list.len(),
    decreases list.len(),
{
    if list.len() > 0 {
        lemma_perft_sum_of_leaves(list.drop_last());
        assert(perft(list.last(), 0) == 1);
    }
}

/// The leaves below the first `count` positions of a list are no more than
/// the leaves below all of them, and one position more adds its own leaves.
pub proof fn lemma_perft_sum_prefix(list: Seq<Position>, depth: nat, count: int)
    requires
        0 <= count <= list.len(),
    ensures
        perft_sum(list.subrange(0, count), depth) <= perft_sum(list, depth),
        count < list.len() ==> perft_sum(list.subrange(0, count + 1), depth) == perft_sum(
            list.subrange(0, count),
            depth,
        ) + perft(list[count], depth),
    decreases list.len() - count,
{
    if count < list.len() {
        let longer = list.subrange(0, count + 1);
        assert(longer.drop_last() =~= list.subrange(0, count));
        assert(longer.last() == list[count]);
        lemma_perft_sum_prefix(list, depth, count + 1);
    } else {
        assert(list.subrange(0, count) =~= list);
    }
}

} // verus!
