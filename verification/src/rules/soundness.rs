//! Every legal successor is sound: well formed, close in score, with an
//! en-passant target that is fresh or a ply older, with no castling right
//! regained, and legal if the position it follows is legal.

use super::attack::{direction_table, is_sliding, piece_attacks, ray_finds, step_attacks};
use super::legality::{
    home_rank_path_clear, is_table_step, lands_on, lemma_castling_ready,
    lemma_double_push_ready, lemma_en_passant_ready, lemma_handed_over_sound,
    lemma_landing_takes_no_king, lemma_plain_move_ready, lemma_promotion_sound,
    lemma_reached_square_holds_no_king, lemma_rights_keep_ready, ready_for_generation,
    ready_to_hand_over, sound_successor, sound_successors,
};
use super::successors::{
    after_rook_move, castled, castling_if_safe, castling_successors, handed_over_if_safe,
    in_check, landing_successors, pawn_arrival, pawn_successors, ray_successors,
    square_successors, step_successors, successors, successors_from,
};
use crate::chess_board::{cell_fits, is_border, is_mover_piece, is_playing_square, Position};
use vstd::prelude::*;

verus! {

/// Two lists of sound successors make a list of sound successors.
pub proof fn lemma_sound_lists_join(p: Position, first: Seq<Position>, second: Seq<Position>)
    requires
        sound_successors(p, first),
        sound_successors(p, second),
    ensures
        sound_successors(p, first + second),
{
    let joined = first + second;
    assert forall|i: int| 0 <= i < joined.len() implies sound_successor(p, #[trigger] joined[i]) by {
        if i < first.len() {
            assert(joined[i] == first[i]);
        } else {
            assert(joined[i] == second[i - first.len()]);
        }
    }
}

/// What is handed over of a position that is ready for it is sound.
pub proof fn lemma_handed_over_list_sound(p: Position, made: Position)
    requires
        ready_to_hand_over(p, made),
    ensures
        sound_successors(p, handed_over_if_safe(made)),
{
    if !in_check(made.cells) {
        lemma_handed_over_sound(p, made);
    }
}

/// What follows the arrival of a pawn is sound.
pub proof fn lemma_pawn_arrival_sound(p: Position, made: Position, to: int)
    requires
        ready_to_hand_over(p, made),
        made.score <= p.score + 60150,
        0 <= made.en_passant_lifetime <= 1,
        is_playing_square(to),
        made.cells[to] == 'P',
    ensures
        sound_successors(p, pawn_arrival(made, to)),
{
    if !in_check(made.cells) {
        lemma_handed_over_sound(p, made);
        lemma_promotion_sound(p, made, to, 'R');
        lemma_promotion_sound(p, made, to, 'N');
        lemma_promotion_sound(p, made, to, 'B');
        lemma_promotion_sound(p, made, to, 'Q');
    }
}

/// What follows from a pawn's step is sound.
pub proof fn lemma_pawn_successors_sound(p: Position, from: int, direction: int)
    requires
        ready_for_generation(p),
        is_playing_square(from),
        p.cells[from] == 'P',
        direction == -10 || direction == -20 || direction == -11 || direction == -9,
    ensures
        sound_successors(p, pawn_successors(p, from, direction)),
{
    let to = from + direction;
    let target = p.cells[to];
    let aged = p.aged();
    assert(cell_fits(p.cells[to], to));
    assert(cell_fits(p.cells[from], from));
    if is_border(target) || is_mover_piece(target) {
    } else if direction == -10 {
        if target == '.' {
            lemma_plain_move_ready(p, aged, from, to);
            lemma_pawn_arrival_sound(p, aged.moved(from, to), to);
        }
    } else if direction == -20 {
        if target == '.' && 81 <= from <= 88 && p.cells[from - 10] == '.' {
            lemma_double_push_ready(p, from);
            lemma_handed_over_list_sound(
                p,
                aged.with_en_passant(119 - (from - 10)).moved(from, to),
            );
        }
    } else if aged.en_passant_active() && to == aged.en_passant_square {
        lemma_en_passant_ready(p, from, to);
        lemma_handed_over_list_sound(p, aged.captured_en_passant(from, to));
    } else if target != '.' {
        if p.legal() {
            let step: int = if direction == -11 {
                2
            } else {
                3
            };
            assert(direction_table('P')[step] == direction);
            assert(step_attacks(p.cells, to, 'P', step, true));
            lemma_reached_square_holds_no_king(p.cells, to, 'P');
        }
        lemma_plain_move_ready(p, aged, from, to);
        lemma_pawn_arrival_sound(p, aged.moved(from, to), to);
    }
}

/// The castling that a rook's landing stands for is sound, and the rook's
/// own move leaves a position that is ready to be handed over.
pub proof fn lemma_castling_successors_sound(p: Position, from: int, to: int)
    requires
        ready_for_generation(p),
        lands_on(p.cells, from, to),
        p.cells[from] == 'R',
    ensures
        sound_successors(p, castling_successors(p, from, to)),
        ready_to_hand_over(p, after_rook_move(p, from, to)),
{
    let made = p.aged().moved(from, to);
    lemma_landing_takes_no_king(p, from, to);
    lemma_plain_move_ready(p, p.aged(), from, to);
    lemma_rights_keep_ready(p, made, false, made.right_castling());
    lemma_rights_keep_ready(p, made, made.left_castling(), false);
    if castling_successors(p, from, to).len() > 0 {
        let king_from = if from == 91 {
            to + 1
        } else {
            to - 1
        };
        let king_to = if from == 91 {
            to - 1
        } else {
            to + 1
        };
        assert(cell_fits(p.cells[king_from], king_from));
        lemma_castling_ready(p, from, to, king_from, king_to);
        assert(castling_successors(p, from, to) == castling_if_safe(
            p,
            from,
            to,
            king_from,
            king_to,
        ));
        lemma_handed_over_sound(p, castled(p, from, to, king_from, king_to));
    }
}

/// What follows from a piece's landing is sound.
pub proof fn lemma_landing_successors_sound(p: Position, from: int, to: int)
    requires
        ready_for_generation(p),
        lands_on(p.cells, from, to),
    ensures
        sound_successors(p, landing_successors(p, from, to)),
{
    let piece = p.cells[from];
    let made = p.aged().moved(from, to);
    lemma_landing_takes_no_king(p, from, to);
    lemma_plain_move_ready(p, p.aged(), from, to);
    if piece == 'K' {
        lemma_rights_keep_ready(p, made, false, false);
        lemma_handed_over_list_sound(p, made.with_castling(false, false));
    } else if piece == 'R' {
        lemma_castling_successors_sound(p, from, to);
        lemma_handed_over_list_sound(p, after_rook_move(p, from, to));
        lemma_sound_lists_join(
            p,
            castling_successors(p, from, to),
            handed_over_if_safe(after_rook_move(p, from, to)),
        );
    } else {
        lemma_handed_over_list_sound(p, made);
    }
}

/// What follows from a piece's walk is sound.
pub proof fn lemma_ray_successors_sound(p: Position, from: int, direction: int, step: int, at: int)
    requires
        ready_for_generation(p),
        is_playing_square(from),
        is_playing_square(at),
        is_mover_piece(p.cells[from]),
        p.cells[from] != 'P',
        0 <= step < direction_table(p.cells[from]).len(),
        direction_table(p.cells[from])[step] == direction,
        is_table_step(direction),
        direction > 0 ==> at >= from,
        direction < 0 ==> at <= from,
        at == from || (is_sliding(p.cells[from]) && p.cells[at] == '.' && ray_finds(
            p.cells,
            at,
            -direction,
            p.cells[from],
            true,
        )),
    ensures
        sound_successors(p, ray_successors(p, from, direction, at)),
    decreases
        (if direction > 0 {
            p.cells.len() - at
        } else {
            at
        }),
{
    let piece = p.cells[from];
    let to = at + direction;
    if direction == 0 || to < 0 || to >= p.cells.len() {
    } else if is_border(p.cells[to]) || is_mover_piece(p.cells[to]) {
    } else {
        assert(cell_fits(p.cells[to], to));
        assert(ray_finds(p.cells, to, -direction, piece, is_sliding(piece)));
        assert(step_attacks(p.cells, to, piece, step, true));
        assert(piece_attacks(p.cells, to, piece, true));
        assert(home_rank_path_clear(p.cells, from, to));
        lemma_landing_successors_sound(p, from, to);
        if is_sliding(piece) && p.cells[to] == '.' {
            lemma_ray_successors_sound(p, from, direction, step, to);
            lemma_sound_lists_join(
                p,
                landing_successors(p, from, to),
                ray_successors(p, from, direction, to),
            );
        }
    }
}

/// What follows from the steps of a piece is sound.
pub proof fn lemma_step_successors_sound(p: Position, from: int, remaining: int)
    requires
        ready_for_generation(p),
        is_playing_square(from),
        is_mover_piece(p.cells[from]),
        remaining <= direction_table(p.cells[from]).len(),
    ensures
        sound_successors(p, step_successors(p, from, remaining)),
    decreases remaining,
{
    if remaining > 0 {
        let direction = direction_table(p.cells[from])[remaining - 1];
        let first = if p.cells[from] == 'P' {
            pawn_successors(p, from, direction)
        } else {
            ray_successors(p, from, direction, from)
        };
        if p.cells[from] == 'P' {
            lemma_pawn_successors_sound(p, from, direction);
        } else {
            lemma_ray_successors_sound(p, from, direction, remaining - 1, from);
        }
        lemma_step_successors_sound(p, from, remaining - 1);
        lemma_sound_lists_join(p, first, step_successors(p, from, remaining - 1));
    }
}

/// What follows from the pieces on the cells from `from` on is sound.
pub proof fn lemma_successors_from_sound(p: Position, from: int)
    requires
        ready_for_generation(p),
        0 <= from,
    ensures
        sound_successors(p, successors_from(p, from)),
    decreases p.cells.len() - from,
{
    if from < p.cells.len() {
        if is_mover_piece(p.cells[from]) {
            assert(cell_fits(p.cells[from], from));
            lemma_step_successors_sound(
                p,
                from,
                direction_table(p.cells[from]).len() as int,
            );
        }
        lemma_successors_from_sound(p, from + 1);
        lemma_sound_lists_join(p, square_successors(p, from), successors_from(p, from + 1));
    }
}

/// Every legal successor of a well-formed position with a king of the mover
/// is sound.
pub proof fn lemma_successors_sound(p: Position)
    requires
        ready_for_generation(p),
    ensures
        sound_successors(p, successors(p)),
{
    lemma_successors_from_sound(p, 0);
}

/// Legality is kept: every legal successor of a legal position is legal. In
/// particular it is well formed and each side has exactly one king in it.
pub proof fn lemma_legality_is_kept(p: Position, i: int)
    requires
        p.legal(),
        super::successors::score_fits(p.score),
        0 <= i < successors(p).len(),
    ensures
        successors(p)[i].legal(),
{
    super::legality::lemma_legal_has_king(p);
    lemma_successors_sound(p);
    assert(sound_successor(p, successors(p)[i]));
}

} // verus!
