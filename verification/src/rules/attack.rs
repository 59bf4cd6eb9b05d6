//! Attacks on a square.
//!
//! A piece attacks a square when one of its capturing steps, or for a bishop,
//! rook or queen a run of such steps over empty squares, leads from the piece
//! to the square. The definition looks from the square outwards: along each
//! step of the piece's table for the opponent's pieces, and along the
//! reversed steps for the mover's own pieces.

use crate::chess_board::{flipped_cell, rotated_cells};
use crate::chess_board::{lemma_flipped_pieces, lemma_flipped_twice};
use vstd::prelude::*;

verus! {

/// The steps that a mover's piece can take, as index offsets in the grid.
/// A pawn's two pushes come first, its two captures last.
pub open spec fn direction_table(piece: char) -> Seq<int> {
    if piece == 'P' {
        seq![-10, -20, -11, -9]
    } else if piece == 'N' {
        seq![-19, -8, 12, 21, 19, 8, -12, -21]
    } else if piece == 'B' {
        seq![-9, 11, 9, -11]
    } else if piece == 'R' {
        seq![-10, 1, 10, -1]
    } else if piece == 'Q' || piece == 'K' {
        seq![-10, 1, 10, -1, -9, 11, 9, -11]
    } else {
        Seq::empty()
    }
}

/// Bishops, rooks and queens repeat their step over empty squares.
pub open spec fn is_sliding(piece: char) -> bool {
    piece == 'B' || piece == 'R' || piece == 'Q'
}

/// Index of the first step of `piece` that captures: a pawn's pushes do not.
pub open spec fn first_capturing_step(piece: char) -> int {
    if piece == 'P' {
        2
    } else {
        0
    }
}

/// Walking from `from` in steps of `direction`, the first cell that is not
/// empty holds `target`. Without `sliding` only the first step counts.
pub open spec fn ray_finds(
    cells: Seq<char>,
    from: int,
    direction: int,
    target: char,
    sliding: bool,
) -> bool
    decreases
        (if direction > 0 {
            cells.len() - from
        } else {
            from
        }),
{
    let next = from + direction;
    if direction == 0 || next < 0 || next >= cells.len() {
        false
    } else if cells[next] == target {
        true
    } else if sliding && cells[next] == '.' {
        ray_finds(cells, next, direction, target, sliding)
    } else {
        false
    }
}

/// The direction in which to look from an attacked square for the attacker
/// that takes the step `direction`: the step itself for an opposing piece,
/// which moves the other way round, and its reverse for a mover's piece.
pub open spec fn looking_direction(direction: int, by_mover: bool) -> int {
    if by_mover {
        -direction
    } else {
        direction
    }
}

/// The letter under which a piece of the attacking side stands on the board.
pub open spec fn attacker_letter(piece: char, by_mover: bool) -> char {
    if by_mover {
        piece
    } else {
        flipped_cell(piece)
    }
}

/// The attacking side's piece of kind `piece` that takes step number `step`
/// of its table reaches `square`.
pub open spec fn step_attacks(
    cells: Seq<char>,
    square: int,
    piece: char,
    step: int,
    by_mover: bool,
) -> bool {
    ray_finds(
        cells,
        square,
        looking_direction(direction_table(piece)[step], by_mover),
        attacker_letter(piece, by_mover),
        is_sliding(piece),
    )
}

/// Some piece of kind `piece` of the attacking side reaches `square`.
pub open spec fn piece_attacks(cells: Seq<char>, square: int, piece: char, by_mover: bool) -> bool {
    exists|step: int|
        first_capturing_step(piece) <= step < direction_table(piece).len() && #[trigger] step_attacks(
            cells,
            square,
            piece,
            step,
            by_mover,
        )
}

/// Some piece of the attacking side reaches `square`: the mover's pieces if
/// `by_mover`, the opponent's otherwise.
pub open spec fn attacked(cells: Seq<char>, square: int, by_mover: bool) -> bool {
    ||| piece_attacks(cells, square, 'P', by_mover)
    ||| piece_attacks(cells, square, 'N', by_mover)
    ||| piece_attacks(cells, square, 'B', by_mover)
    ||| piece_attacks(cells, square, 'R', by_mover)
    ||| piece_attacks(cells, square, 'Q', by_mover)
    ||| piece_attacks(cells, square, 'K', by_mover)
}

/// A ray on a grid and the mirrored ray on the rotated grid find each
/// other's mirror image.
pub proof fn lemma_ray_rotated(
    cells: Seq<char>,
    from: int,
    direction: int,
    target: char,
    sliding: bool,
)
    requires
        0 <= from < cells.len(),
    ensures
        ray_finds(cells, from, direction, target, sliding) == ray_finds(
            rotated_cells(cells),
            cells.len() - 1 - from,
            -direction,
            flipped_cell(target),
            sliding,
        ),
    decreases
        (if direction > 0 {
            cells.len() - from
        } else {
            from
        }),
{
    let turned = rotated_cells(cells);
    let next = from + direction;
    if direction == 0 || next < 0 || next >= cells.len() {
    } else {
        let mirror = cells.len() - 1 - next;
        assert(turned[mirror] == flipped_cell(cells[next]));
        lemma_flipped_twice(cells[next]);
        lemma_flipped_twice(target);
        lemma_flipped_pieces(cells[next]);
        if cells[next] != target && sliding && cells[next] == '.' {
            lemma_ray_rotated(cells, next, direction, target, sliding);
        }
    }
}

/// Check detection agrees with its mirror image: the opponent attacks a
/// square of a grid exactly if, on the rotated grid, the side that is then
/// the mover attacks the mirrored square.
pub proof fn lemma_attack_rotated(cells: Seq<char>, square: int, by_mover: bool)
    requires
        0 <= square < cells.len(),
    ensures
        attacked(cells, square, by_mover) == attacked(
            rotated_cells(cells),
            cells.len() - 1 - square,
            !by_mover,
        ),
{
    lemma_piece_attack_rotated(cells, square, 'P', by_mover);
    lemma_piece_attack_rotated(cells, square, 'N', by_mover);
    lemma_piece_attack_rotated(cells, square, 'B', by_mover);
    lemma_piece_attack_rotated(cells, square, 'R', by_mover);
    lemma_piece_attack_rotated(cells, square, 'Q', by_mover);
    lemma_piece_attack_rotated(cells, square, 'K', by_mover);
}

/// The same for the pieces of one kind.
pub proof fn lemma_piece_attack_rotated(cells: Seq<char>, square: int, piece: char, by_mover: bool)
    requires
        0 <= square < cells.len(),
        piece == 'P' || piece == 'N' || piece == 'B' || piece == 'R' || piece == 'Q' || piece
            == 'K',
    ensures
        piece_attacks(cells, square, piece, by_mover) == piece_attacks(
            rotated_cells(cells),
            cells.len() - 1 - square,
            piece,
            !by_mover,
        ),
{
    let turned = rotated_cells(cells);
    let mirror = cells.len() - 1 - square;
    let other = !by_mover;
    assert forall|step: int| 0 <= step < direction_table(piece).len() implies step_attacks(
        cells,
        square,
        piece,
        step,
        by_mover,
    ) == step_attacks(turned, mirror, piece, step, other) by {
        lemma_ray_rotated(
            cells,
            square,
            looking_direction(direction_table(piece)[step], by_mover),
            attacker_letter(piece, by_mover),
            is_sliding(piece),
        );
        lemma_flipped_twice(piece);
    }
    if piece_attacks(cells, square, piece, by_mover) {
        let step = choose|step: int|
            first_capturing_step(piece) <= step < direction_table(piece).len()
                && #[trigger] step_attacks(cells, square, piece, step, by_mover);
        assert(step_attacks(turned, mirror, piece, step, other));
    }
    if piece_attacks(turned, mirror, piece, other) {
        let step = choose|step: int|
            first_capturing_step(piece) <= step < direction_table(piece).len()
                && #[trigger] step_attacks(turned, mirror, piece, step, other);
        assert(step_attacks(cells, square, piece, step, by_mover));
    }
}

} // verus!
