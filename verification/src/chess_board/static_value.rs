//! The value of a board computed from its cells alone, and the moves that
//! keep the running score in step with it.
//!
//! The static value counts, for every piece, its material and its positional
//! value on the cell where it stands as its own side sees it: plus for the
//! mover, minus for the opponent. The running score follows this value over
//! every move that takes nothing, and over a capture where the captured
//! piece's table has the same value on the cell as both sides see it. It
//! leaves it over other captures, which are paid for by the table as the
//! capturing side sees it, over promotions, which keep the pawn's material,
//! and over castling, which adds a bonus.

use super::evaluation::{move_gain, piece_value, square_table_value};
use super::{flipped_cell, is_mover_piece, is_opponent_piece, rotated_cells, Position};
use vstd::prelude::*;

verus! {

/// What the cell `index` adds to the static value.
pub open spec fn cell_value(cell: char, index: int) -> int {
    if is_mover_piece(cell) {
        piece_value(cell) + square_table_value(cell, index)
    } else if is_opponent_piece(cell) {
        -(piece_value(cell) + square_table_value(cell, 119 - index))
    } else {
        0
    }
}

/// The static value of the first `count` cells.
pub open spec fn static_value_upto(cells: Seq<char>, count: int) -> int
    decreases count,
{
    if count <= 0 {
        0
    } else {
        static_value_upto(cells, count - 1) + cell_value(cells[count - 1], count - 1)
    }
}

/// The static value of the cells from `start` on.
pub open spec fn static_value_from(cells: Seq<char>, start: int) -> int
    decreases cells.len() - start,
{
    if start < 0 || start >= cells.len() {
        0
    } else {
        cell_value(cells[start], start) + static_value_from(cells, start + 1)
    }
}

/// The static value of a grid, from the mover's point of view.
pub open spec fn static_value(cells: Seq<char>) -> int {
    static_value_upto(cells, cells.len() as int)
}

/// The score of the position is the static value of its grid.
pub open spec fn score_consistent(p: Position) -> bool {
    p.score == static_value(p.cells)
}

/// The move from `from` to `to` is one over which the score follows the
/// static value: a piece of the mover goes to another cell that holds no
/// piece of the mover, and a piece that it takes has the same positional
/// value on that cell as both sides see it.
pub open spec fn score_following_move(cells: Seq<char>, from: int, to: int) -> bool {
    &&& 0 <= from < cells.len()
    &&& 0 <= to < cells.len()
    &&& from != to
    &&& is_mover_piece(cells[from])
    &&& !is_mover_piece(cells[to])
    &&& is_opponent_piece(cells[to]) ==> square_table_value(cells[to], to) == square_table_value(
        cells[to],
        119 - to,
    )
}

/// The position after a line of moves, each given by its origin and its
/// destination and each followed by handing the board over.
pub open spec fn after_moves(p: Position, moves: Seq<(int, int)>) -> Position
    decreases moves.len(),
{
    if moves.len() == 0 {
        p
    } else {
        after_moves(p.moved(moves[0].0, moves[0].1).rotated(), moves.drop_first())
    }
}

/// Every move of the line is one over which the score follows the static
/// value.
pub open spec fn score_following_line(p: Position, moves: Seq<(int, int)>) -> bool
    decreases moves.len(),
{
    moves.len() == 0 || (score_following_move(p.cells, moves[0].0, moves[0].1)
        && score_following_line(
        p.moved(moves[0].0, moves[0].1).rotated(),
        moves.drop_first(),
    ))
}

/// Changing one cell changes the static value by the difference of what the
/// cell adds.
pub proof fn lemma_static_value_update(cells: Seq<char>, at: int, cell: char, count: int)
    requires
        0 <= at < cells.len(),
        0 <= count <= cells.len(),
    ensures
        static_value_upto(cells.update(at, cell), count) == static_value_upto(cells, count) + if at
            < count {
            cell_value(cell, at) - cell_value(cells[at], at)
        } else {
            0
        },
    decreases count,
{
    if count > 0 {
        lemma_static_value_update(cells, at, cell, count - 1);
    }
}

/// The first cells and the rest add up to the whole.
pub proof fn lemma_static_value_split(cells: Seq<char>, count: int)
    requires
        0 <= count <= cells.len(),
    ensures
        static_value_upto(cells, count) + static_value_from(cells, count) == static_value(cells),
    decreases cells.len() - count,
{
    if count < cells.len() {
        lemma_static_value_split(cells, count + 1);
    }
}

/// The first cells of the rotated grid are worth the opposite of the last
/// cells of the grid.
pub proof fn lemma_static_value_rotated_upto(cells: Seq<char>, count: int)
    requires
        cells.len() == 120,
        0 <= count <= 120,
    ensures
        static_value_upto(rotated_cells(cells), count) == -static_value_from(cells, 120 - count),
    decreases count,
{
    if count > 0 {
        lemma_static_value_rotated_upto(cells, count - 1);
        let turned = rotated_cells(cells);
        assert(turned[count - 1] == flipped_cell(cells[120 - count]));
    }
}

/// Handing the board over negates the static value.
pub proof fn lemma_static_value_rotated(cells: Seq<char>)
    requires
        cells.len() == 120,
    ensures
        static_value(rotated_cells(cells)) == -static_value(cells),
{
    lemma_static_value_rotated_upto(cells, 120);
    lemma_static_value_split(cells, 0);
}

/// Over a move that the score follows, the static value changes by what
/// the move adds to the score.
pub proof fn lemma_static_value_moved(cells: Seq<char>, from: int, to: int)
    requires
        score_following_move(cells, from, to),
    ensures
        static_value(cells.update(to, cells[from]).update(from, '.')) == static_value(cells)
            + move_gain(cells, from, to),
{
    let placed = cells.update(to, cells[from]);
    lemma_static_value_update(cells, to, cells[from], cells.len() as int);
    lemma_static_value_update(placed, from, '.', cells.len() as int);
}

/// The incrementally kept score stays the static value of the grid: over a
/// move that the score follows, and over handing the board over.
pub proof fn lemma_score_stays_consistent(p: Position, from: int, to: int)
    requires
        p.cells.len() == 120,
        score_consistent(p),
        score_following_move(p.cells, from, to),
    ensures
        score_consistent(p.moved(from, to)),
        score_consistent(p.moved(from, to).rotated()),
        score_consistent(p.rotated()),
{
    lemma_static_value_moved(p.cells, from, to);
    lemma_static_value_rotated(p.cells);
    lemma_static_value_rotated(p.moved(from, to).cells);
}

/// The score reached by applying a line of moves one by one is the static
/// value of the grid that they lead to, if it was so at the start and the
/// score follows every move of the line.
pub proof fn lemma_line_keeps_score_consistent(p: Position, moves: Seq<(int, int)>)
    requires
        p.cells.len() == 120,
        score_consistent(p),
        score_following_line(p, moves),
    ensures
        score_consistent(after_moves(p, moves)),
    decreases moves.len(),
{
    if moves.len() > 0 {
        lemma_score_stays_consistent(p, moves[0].0, moves[0].1);
        lemma_line_keeps_score_consistent(
            p.moved(moves[0].0, moves[0].1).rotated(),
            moves.drop_first(),
        );
    }
}

} // verus!
