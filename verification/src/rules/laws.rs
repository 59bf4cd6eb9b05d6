//! Laws of castling and of capturing en passant, stated over the definition
//! of the legal successors.

use super::attack::{
    attacked, attacker_letter, direction_table, first_capturing_step, is_sliding,
    looking_direction, piece_attacks, ray_finds, step_attacks,
};
use super::legality::{lemma_king_square, only_at, ready_for_generation, sound_successor};
use super::soundness::lemma_successors_sound;
use super::successors::{
    castled, castling_successors, in_check, pawn_successors, successors, LEFT_ROOK_HOME,
    RIGHT_ROOK_HOME,
};
use crate::chess_board::{
    cell_fits, cells_well_formed, is_mover_piece, is_opponent_piece, lemma_flipped_pieces,
    Position,
};
use vstd::prelude::*;

verus! {

/// The cell next to the rook's destination on which the king stands before
/// castling with the rook from `from`.
pub open spec fn castling_king_from(from: int, to: int) -> int {
    if from == LEFT_ROOK_HOME {
        to + 1
    } else {
        to - 1
    }
}

/// The cell on the other side of the rook's destination, on which the king
/// stands after castling with the rook from `from`.
pub open spec fn castling_king_to(from: int, to: int) -> int {
    if from == LEFT_ROOK_HOME {
        to - 1
    } else {
        to + 1
    }
}

/// Castling is generated only under its conditions, and it uses up the
/// castling rights.
///
/// Where the rook's move from `from` to `to` gives a castling, the rook has
/// left a corner of the home rank for an empty square of that rank next to
/// the king, and the mover had the castling right of that corner. The king
/// is not attacked once the rook has moved, the rook's square, which the
/// king passes, is not attacked, and the king is not attacked where it ends
/// up. In the one position that is generated, the side that has castled has
/// no castling right left.
pub proof fn lemma_castling_conditions(p: Position, from: int, to: int)
    requires
        castling_successors(p, from, to).len() > 0,
    ensures
        from == LEFT_ROOK_HOME && p.left_castling() || from == RIGHT_ROOK_HOME
            && p.right_castling(),
        LEFT_ROOK_HOME <= to <= RIGHT_ROOK_HOME,
        p.cells[to] == '.',
        p.cells[castling_king_from(from, to)] == 'K',
        !in_check(p.aged().moved(from, to).cells),
        !attacked(p.aged().moved(from, to).cells, to, false),
        !in_check(
            castled(p, from, to, castling_king_from(from, to), castling_king_to(from, to)).cells,
        ),
        castling_successors(p, from, to) == seq![
            castled(
                p,
                from,
                to,
                castling_king_from(from, to),
                castling_king_to(from, to),
            ).rotated(),
        ],
        p.white_to_move ==> castling_successors(p, from, to)[0].white_castling == (false, false),
        !p.white_to_move ==> castling_successors(p, from, to)[0].black_castling == (false, false),
{
}

/// Without the castling right of the rook's corner no castling is
/// generated.
pub proof fn lemma_no_castling_without_right(p: Position, from: int, to: int)
    requires
        from == LEFT_ROOK_HOME ==> !p.left_castling(),
        from == RIGHT_ROOK_HOME ==> !p.right_castling(),
    ensures
        castling_successors(p, from, to).len() == 0,
{
}

/// An en-passant capture needs a live target: a pawn's diagonal step onto
/// an empty square gives no successor unless the en-passant target is that
/// square and is still open to capture.
pub proof fn lemma_en_passant_needs_live_target(p: Position, from: int, direction: int)
    requires
        direction == -11 || direction == -9,
        p.cells[from + direction] == '.',
        !(p.en_passant_lifetime >= 2 && p.en_passant_square == from + direction),
    ensures
        pawn_successors(p, from, direction).len() == 0,
{
}

/// The en-passant target lives for one reply.
///
/// In a successor `next` of `p` the target is open to capture only if the
/// move from `p` to `next` was a double push, which passed the target. In a
/// successor `later` of `next`, two plies after `p`, that target is no
/// longer open: whatever target is open there has been made by the move
/// from `next` to `later`.
pub proof fn lemma_en_passant_lifetime(p: Position, next: Position, later: Position)
    requires
        p.well_formed(),
        sound_successor(p, next),
        sound_successor(next, later),
    ensures
        next.aged().en_passant_active() ==> {
            let passed = 119 - next.en_passant_square;
            &&& next.en_passant_lifetime == 2
            &&& p.cells[passed + 10] == 'P'
            &&& p.cells[passed] == '.'
            &&& p.cells[passed - 10] == '.'
        },
        later.aged().en_passant_active() ==> {
            let passed = 119 - later.en_passant_square;
            &&& later.en_passant_lifetime == 2
            &&& next.cells[passed + 10] == 'P'
            &&& next.cells[passed] == '.'
            &&& next.cells[passed - 10] == '.'
        },
        later.en_passant_lifetime != 2 ==> !later.aged().en_passant_active(),
{
}

/// Among the legal successors the en-passant target lives for one reply.
///
/// Let `next` be a legal successor of `p` and `later` one of `next`. If a
/// capture en passant is open in `next`, the move from `p` to `next` was a
/// double push that passed the target. Two plies after `p`, in `later`, a
/// capture en passant is open only onto a target that the move from `next`
/// to `later` has made.
pub proof fn lemma_en_passant_open_for_one_reply(p: Position, i: int, j: int)
    requires
        ready_for_generation(p),
        0 <= i < successors(p).len(),
        ready_for_generation(successors(p)[i]),
        0 <= j < successors(successors(p)[i]).len(),
    ensures
        ({
            let next = successors(p)[i];
            let later = successors(next)[j];
            &&& next.aged().en_passant_active() ==> {
                let passed = 119 - next.en_passant_square;
                &&& p.cells[passed + 10] == 'P'
                &&& p.cells[passed] == '.'
                &&& p.cells[passed - 10] == '.'
            }
            &&& later.aged().en_passant_active() ==> {
                let passed = 119 - later.en_passant_square;
                &&& next.cells[passed + 10] == 'P'
                &&& next.cells[passed] == '.'
                &&& next.cells[passed - 10] == '.'
            }
        }),
{
    let next = successors(p)[i];
    let later = successors(next)[j];
    lemma_successors_sound(p);
    lemma_successors_sound(next);
    assert(sound_successor(p, next));
    assert(sound_successor(next, later));
    lemma_en_passant_lifetime(p, next, later);
}

/// Two grids that agree on every cell that a ray can visit give the ray
/// the same result.
pub proof fn lemma_ray_agrees(
    cells: Seq<char>,
    other: Seq<char>,
    from: int,
    direction: int,
    target: char,
    sliding: bool,
)
    requires
        cells.len() == other.len(),
        forall|i: int|
            0 <= i < cells.len() && (direction > 0 && i >= from + direction || direction < 0 && i
                <= from + direction) ==> cells[i] == other[i],
    ensures
        ray_finds(cells, from, direction, target, sliding) == ray_finds(
            other,
            from,
            direction,
            target,
            sliding,
        ),
    decreases
        (if direction > 0 {
            cells.len() - from
        } else {
            from
        }),
{
    let next = from + direction;
    if direction == 0 || next < 0 || next >= cells.len() {
    } else if cells[next] != target && sliding && cells[next] == '.' {
        lemma_ray_agrees(cells, other, next, direction, target, sliding);
    }
}

/// A ray that runs over empty squares into a piece of the mover finds no
/// opposing piece.
pub proof fn lemma_ray_blocked(
    cells: Seq<char>,
    from: int,
    direction: int,
    blocker: int,
    target: char,
    sliding: bool,
)
    requires
        direction == 1 || direction == -1,
        0 <= blocker < cells.len(),
        0 <= from < cells.len(),
        direction == 1 ==> from < blocker,
        direction == -1 ==> blocker < from,
        is_mover_piece(cells[blocker]),
        is_opponent_piece(target),
        forall|i: int|
            (from < i < blocker || blocker < i < from) ==> cells[i] == '.',
    ensures
        !ray_finds(cells, from, direction, target, sliding),
    decreases
        (if direction > 0 {
            cells.len() - from
        } else {
            from
        }),
{
    let next = from + direction;
    if next != blocker && sliding {
        lemma_ray_blocked(cells, next, direction, blocker, target, sliding);
    }
}

/// Castling does not lead out of check: where the rook's move from `from`
/// along the empty home rank to `to` gives a castling of the only king, the
/// king is not attacked in `p`, before anything has moved.
pub proof fn lemma_no_castling_out_of_check(p: Position, from: int, to: int)
    requires
        cells_well_formed(p.cells),
        castling_successors(p, from, to).len() > 0,
        p.cells[from] == 'R',
        only_at(p.cells, 'K', castling_king_from(from, to)),
        forall|i: int| (from < i < to || to < i < from) ==> p.cells[i] == '.',
    ensures
        !in_check(p.cells),
{
    lemma_castling_conditions(p, from, to);
    let king = castling_king_from(from, to);
    let after = p.aged().moved(from, to).cells;
    assert(cell_fits(p.cells[king], king));
    assert(only_at(after, 'K', king));
    lemma_king_square(p.cells, king);
    lemma_king_square(after, king);
    if attacked(p.cells, king, false) {
        lemma_piece_attack_survives_rook_move(p, from, to, 'P');
        lemma_piece_attack_survives_rook_move(p, from, to, 'N');
        lemma_piece_attack_survives_rook_move(p, from, to, 'B');
        lemma_piece_attack_survives_rook_move(p, from, to, 'R');
        lemma_piece_attack_survives_rook_move(p, from, to, 'Q');
        lemma_piece_attack_survives_rook_move(p, from, to, 'K');
        assert(attacked(after, king, false));
    }
}

/// An attack of the opposing pieces of one kind on the king that is about
/// to castle is still there once the rook has moved.
pub proof fn lemma_piece_attack_survives_rook_move(p: Position, from: int, to: int, piece: char)
    requires
        p.cells.len() == 120,
        from == LEFT_ROOK_HOME || from == RIGHT_ROOK_HOME,
        LEFT_ROOK_HOME <= to <= RIGHT_ROOK_HOME,
        LEFT_ROOK_HOME <= castling_king_from(from, to) <= RIGHT_ROOK_HOME,
        p.cells[from] == 'R',
        p.cells[to] == '.',
        forall|i: int| (from < i < to || to < i < from) ==> p.cells[i] == '.',
        is_mover_piece(piece),
    ensures
        piece_attacks(p.cells, castling_king_from(from, to), piece, false) ==> piece_attacks(
            p.aged().moved(from, to).cells,
            castling_king_from(from, to),
            piece,
            false,
        ),
{
    let king = castling_king_from(from, to);
    let after = p.aged().moved(from, to).cells;
    if piece_attacks(p.cells, king, piece, false) {
        let step = choose|step: int|
            first_capturing_step(piece) <= step < direction_table(piece).len()
                && #[trigger] step_attacks(p.cells, king, piece, step, false);
        let direction = looking_direction(direction_table(piece)[step], false);
        let target = attacker_letter(piece, false);
        let sliding = is_sliding(piece);
        lemma_flipped_pieces(piece);
        assert(direction == 1 || direction == -1 || direction >= 8 || direction <= -8);
        if from == LEFT_ROOK_HOME && direction == -1 {
            lemma_ray_blocked(p.cells, king, direction, from, target, sliding);
        } else if from == RIGHT_ROOK_HOME && direction == 1 {
            lemma_ray_blocked(p.cells, king, direction, from, target, sliding);
        } else {
            lemma_ray_agrees(p.cells, after, king, direction, target, sliding);
        }
        assert(step_attacks(after, king, piece, step, false));
    }
}

} // verus!
