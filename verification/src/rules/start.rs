//! The starting position: it is legal, and its score is the static value
//! of its grid.

use super::attack::{
    attacked, direction_table, first_capturing_step, is_sliding, piece_attacks, step_attacks,
};
use super::legality::{kings_present, only_at};
use crate::chess_board::setups::{
    initial_position, lemma_initial_position_well_formed, INITIAL_LAYOUT,
};
use crate::chess_board::static_value::{score_consistent, static_value_upto};
use vstd::prelude::*;

verus! {

/// In the starting grid no piece of white of the kind `piece` attacks the
/// black king's square.
proof fn lemma_initial_king_not_attacked_by(piece: char)
    requires
        piece == 'P' || piece == 'N' || piece == 'B' || piece == 'R' || piece == 'Q' || piece
            == 'K',
    ensures
        !piece_attacks(INITIAL_LAYOUT@, 25, piece, true),
{
    let cells = INITIAL_LAYOUT@;
    assert forall|step: int|
        first_capturing_step(piece) <= step < direction_table(piece).len() implies !#[trigger] step_attacks(
        cells,
        25,
        piece,
        step,
        true,
    ) by {
        let direction = -direction_table(piece)[step];
        assert(0 <= 25 + direction < 120);
        assert(cells[25 + direction] != piece);
        assert(is_sliding(piece) ==> cells[25 + direction] != '.');
    }
}

/// The starting position is legal: it is well formed, each side has one
/// king, and white does not attack the black king.
pub proof fn lemma_initial_position_legal()
    ensures
        initial_position().legal(),
{
    lemma_initial_position_well_formed();
    let cells = INITIAL_LAYOUT@;
    assert(only_at(cells, 'K', 95));
    assert(only_at(cells, 'k', 25));
    assert(kings_present(cells));
    lemma_initial_king_not_attacked_by('P');
    lemma_initial_king_not_attacked_by('N');
    lemma_initial_king_not_attacked_by('B');
    lemma_initial_king_not_attacked_by('R');
    lemma_initial_king_not_attacked_by('Q');
    lemma_initial_king_not_attacked_by('K');
    assert(!attacked(cells, 25, true));
    assert forall|k: int| only_at(cells, 'k', k) implies !attacked(cells, k, true) by {
        assert(k == 25);
    }
}

/// What a row of ten cells of the starting grid adds to the static value.
proof fn lemma_initial_row_value(row: int)
    requires
        0 <= row < 12,
    ensures
        static_value_upto(INITIAL_LAYOUT@, 10 * row + 10) == static_value_upto(
            INITIAL_LAYOUT@,
            10 * row,
        ) + if row == 2 {
            -63145int
        } else if row == 3 {
            -800
        } else if row == 8 {
            800
        } else if row == 9 {
            63145
        } else {
            0
        },
{
    reveal_with_fuel(static_value_upto, 11);
}

/// The score of the starting position, 0, is the static value of its grid.
pub proof fn lemma_initial_position_score_consistent()
    ensures
        score_consistent(initial_position()),
{
    lemma_initial_row_value(0);
    lemma_initial_row_value(1);
    lemma_initial_row_value(2);
    lemma_initial_row_value(3);
    lemma_initial_row_value(4);
    lemma_initial_row_value(5);
    lemma_initial_row_value(6);
    lemma_initial_row_value(7);
    lemma_initial_row_value(8);
    lemma_initial_row_value(9);
    lemma_initial_row_value(10);
    lemma_initial_row_value(11);
}

} // verus!
