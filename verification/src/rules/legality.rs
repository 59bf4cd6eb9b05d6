//! Legal positions: both kings on the board, and the side that has just
//! moved not in check. Legality is kept by every generated move, which is
//! what lets a search walk the tree of successors without ever meeting a
//! position without a king.

use super::attack::{
    attacked, attacker_letter, direction_table, first_capturing_step, is_sliding,
    lemma_attack_rotated, looking_direction, piece_attacks, ray_finds, step_attacks,
};
use super::successors::{
    castled, first_index_of, has_mover_king, in_check, is_pawn_home, king_square, score_fits,
    MAX_PLY_GAIN,
};
use crate::chess_board::evaluation::{
    lemma_move_gain_bounds, lemma_passed_pawn_gain_bounds, lemma_promotion_gain_bounds,
};
use crate::chess_board::{cell_fits, is_playing_square, is_promotion_piece, lemma_rotated_well_formed};
use crate::chess_board::{
    cells_well_formed, flipped_cell, is_mover_piece, is_opponent_piece, lemma_flipped_pieces,
    lemma_flipped_twice, rotated_cells, Position,
};
use vstd::prelude::*;

verus! {

/// `piece` stands on `index` and nowhere else.
pub open spec fn only_at(cells: Seq<char>, piece: char, index: int) -> bool {
    &&& 0 <= index < cells.len()
    &&& cells[index] == piece
    &&& forall|j: int| #![trigger cells[j]] 0 <= j < cells.len() && cells[j] == piece ==> j == index
}

/// Each side has exactly one king.
pub open spec fn kings_present(cells: Seq<char>) -> bool {
    &&& exists|k: int| only_at(cells, 'K', k)
    &&& exists|k: int| only_at(cells, 'k', k)
}

/// The mover does not attack the opponent's king.
pub open spec fn opponent_king_safe(cells: Seq<char>) -> bool {
    forall|k: int| only_at(cells, 'k', k) ==> !attacked(cells, k, true)
}

impl Position {
    /// The position is well formed, each side has exactly one king, and the
    /// side that is not to move is not in check.
    pub open spec fn legal(self) -> bool {
        &&& self.well_formed()
        &&& kings_present(self.cells)
        &&& opponent_king_safe(self.cells)
    }
}

/// The en-passant target of `next`, a position made from `p` by one move, is
/// either fresh or a ply older than in `p`.
///
/// A target that the next ply may capture on is there because the move was a
/// double push: seen from `p`, the passed square and the pawn's destination
/// were empty, and the pawn stood on its home rank, one row behind the passed
/// square. Any other move leaves the target of `p`, with one ply less to
/// live.
pub open spec fn en_passant_lineage(p: Position, next: Position) -> bool {
    if next.en_passant_lifetime == 2 {
        let passed = 119 - next.en_passant_square;
        &&& is_pawn_home(passed + 10)
        &&& p.cells[passed + 10] == 'P'
        &&& p.cells[passed] == '.'
        &&& p.cells[passed - 10] == '.'
    } else {
        &&& next.en_passant_lifetime == p.aged().en_passant_lifetime
        &&& next.en_passant_square == p.en_passant_square
    }
}

/// No castling right is there in `next` that is not there in `p`: a right
/// that is lost stays lost.
pub open spec fn rights_not_regained(p: Position, next: Position) -> bool {
    &&& next.white_castling.0 ==> p.white_castling.0
    &&& next.white_castling.1 ==> p.white_castling.1
    &&& next.black_castling.0 ==> p.black_castling.0
    &&& next.black_castling.1 ==> p.black_castling.1
}

/// Restricting the castling rights of the mover gives no right back: each
/// right of the restricted position is a right of the position.
pub proof fn lemma_restricting_rights_gives_none_back(p: Position, left: bool, right: bool)
    ensures
        rights_not_regained(
            p,
            p.with_castling(p.left_castling() && left, p.right_castling() && right),
        ),
{
}

/// A successor of `p` as generation leaves it: well formed, with the other
/// side to move, with a score that lies, seen from the side that moved,
/// within one ply's gain of the score of `p`, with an en-passant target that
/// is fresh or a ply older, without a castling right that `p` does not have,
/// and legal if `p` is.
pub open spec fn sound_successor(p: Position, next: Position) -> bool {
    &&& next.well_formed()
    &&& next.white_to_move == !p.white_to_move
    &&& p.score - MAX_PLY_GAIN <= -next.score <= p.score + MAX_PLY_GAIN
    &&& en_passant_lineage(p, next)
    &&& rights_not_regained(p, next)
    &&& p.legal() ==> next.legal()
}

/// Every position of the list is a sound successor of `p`.
pub open spec fn sound_successors(p: Position, list: Seq<Position>) -> bool {
    forall|i: int| 0 <= i < list.len() ==> sound_successor(p, #[trigger] list[i])
}

/// The position `made`, reached from `p` by a move of the mover, can be
/// examined for check and handed over to the other side.
pub open spec fn ready_to_hand_over(p: Position, made: Position) -> bool {
    &&& cells_well_formed(made.cells)
    &&& has_mover_king(made.cells)
    &&& made.white_to_move == p.white_to_move
    &&& made.rotated().well_formed()
    &&& p.score - MAX_PLY_GAIN <= made.score <= p.score + MAX_PLY_GAIN
    &&& en_passant_lineage(p, made)
    &&& rights_not_regained(p, made)
    &&& p.legal() ==> kings_present(made.cells)
}

/// A cell at or after `start` that holds `piece` bounds the first such cell.
pub proof fn lemma_holds_piece(cells: Seq<char>, piece: char, start: int, index: int)
    requires
        0 <= start <= index < cells.len(),
        cells[index] == piece,
    ensures
        start <= first_index_of(cells, piece, start) <= index,
        cells[first_index_of(cells, piece, start)] == piece,
    decreases index - start,
{
    if cells[start] != piece {
        lemma_holds_piece(cells, piece, start + 1, index);
    }
}

/// The mover has a king exactly if some cell holds one.
pub proof fn lemma_has_mover_king(cells: Seq<char>)
    ensures
        has_mover_king(cells) <==> exists|j: int| 0 <= j < cells.len() && cells[j] == 'K',
        has_mover_king(cells) ==> 0 <= king_square(cells) < cells.len() && cells[king_square(
            cells,
        )] == 'K',
{
    if exists|j: int| 0 <= j < cells.len() && cells[j] == 'K' {
        let j = choose|j: int| 0 <= j < cells.len() && cells[j] == 'K';
        lemma_holds_piece(cells, 'K', 0, j);
    }
    if has_mover_king(cells) {
        lemma_first_found(cells, 'K', 0);
    }
}

/// What `first_index_of` finds is a cell that holds the piece.
pub proof fn lemma_first_found(cells: Seq<char>, piece: char, start: int)
    requires
        0 <= start,
    ensures
        first_index_of(cells, piece, start) <= cells.len(),
        first_index_of(cells, piece, start) < cells.len() ==> start <= first_index_of(
            cells,
            piece,
            start,
        ) && cells[first_index_of(cells, piece, start)] == piece,
    decreases cells.len() - start,
{
    if start < cells.len() && cells[start] != piece {
        lemma_first_found(cells, piece, start + 1);
    }
}

/// Two grids with the mover's kings on the same cells have the same first
/// king.
pub proof fn lemma_same_kings(cells: Seq<char>, other: Seq<char>, start: int)
    requires
        cells.len() == other.len(),
        forall|i: int| 0 <= i < cells.len() ==> (cells[i] == 'K') == (other[i] == 'K'),
    ensures
        first_index_of(cells, 'K', start) == first_index_of(other, 'K', start),
    decreases cells.len() - start,
{
    if 0 <= start < cells.len() && cells[start] != 'K' {
        lemma_same_kings(cells, other, start + 1);
    }
}

/// A move of a piece that is no king, onto a cell that holds no king of the
/// mover, leaves the mover's king where it is.
pub proof fn lemma_king_square_after_move(cells: Seq<char>, from: int, to: int)
    requires
        0 <= from < cells.len(),
        0 <= to < cells.len(),
        cells[to] != 'K',
    ensures
        cells[from] != 'K' ==> king_square(cells.update(to, cells[from]).update(from, '.'))
            == king_square(cells),
{
    if cells[from] != 'K' {
        lemma_same_kings(cells, cells.update(to, cells[from]).update(from, '.'), 0);
    }
}

/// Changing a cell that holds no king of the mover to something that is no
/// such king leaves the mover's king where it is.
pub proof fn lemma_king_square_after_change(cells: Seq<char>, at: int, piece: char)
    requires
        0 <= at < cells.len(),
        cells[at] != 'K',
        piece != 'K',
    ensures
        king_square(cells.update(at, piece)) == king_square(cells),
{
    lemma_same_kings(cells, cells.update(at, piece), 0);
}

/// A move of a mover's piece onto a cell that does not hold the mover's
/// king leaves the mover with a king.
pub proof fn lemma_king_stays(cells: Seq<char>, from: int, to: int)
    requires
        has_mover_king(cells),
        0 <= from < cells.len(),
        0 <= to < cells.len(),
        cells[to] != 'K',
    ensures
        has_mover_king(cells.update(to, cells[from]).update(from, '.')),
{
    let after = cells.update(to, cells[from]).update(from, '.');
    lemma_has_mover_king(cells);
    lemma_has_mover_king(after);
    let king = king_square(cells);
    if king == from {
        assert(after[to] == 'K');
    } else {
        assert(after[king] == 'K');
    }
}

/// Changing a cell that does not hold the mover's king leaves the mover
/// with a king.
pub proof fn lemma_king_stays_after_change(cells: Seq<char>, at: int, piece: char)
    requires
        has_mover_king(cells),
        0 <= at < cells.len(),
        cells[at] != 'K',
    ensures
        has_mover_king(cells.update(at, piece)),
{
    let after = cells.update(at, piece);
    lemma_has_mover_king(cells);
    lemma_has_mover_king(after);
    assert(after[king_square(cells)] == 'K');
}

/// The first cell that holds `piece` at or after `start` is `index` if no
/// cell in between holds it.
pub proof fn lemma_first_index(cells: Seq<char>, piece: char, start: int, index: int)
    requires
        0 <= start <= index < cells.len(),
        cells[index] == piece,
        forall|j: int| #![trigger cells[j]] start <= j < index ==> cells[j] != piece,
    ensures
        first_index_of(cells, piece, start) == index,
    decreases index - start,
{
    if start < index {
        assert(cells[start] != piece);
        lemma_first_index(cells, piece, start + 1, index);
    }
}

/// A king that stands on one cell only is found there.
pub proof fn lemma_king_square(cells: Seq<char>, index: int)
    requires
        only_at(cells, 'K', index),
    ensures
        king_square(cells) == index,
        has_mover_king(cells),
{
    lemma_first_index(cells, 'K', 0, index);
}

/// A legal position has a king of the mover.
pub proof fn lemma_legal_has_king(p: Position)
    requires
        p.legal(),
    ensures
        has_mover_king(p.cells),
{
    let k = choose|k: int| only_at(p.cells, 'K', k);
    lemma_king_square(p.cells, k);
}

/// A move of a mover's piece that takes neither king leaves both kings on
/// the board, the opponent's on its cell.
pub proof fn lemma_move_keeps_kings(cells: Seq<char>, from: int, to: int)
    requires
        kings_present(cells),
        0 <= from < cells.len(),
        0 <= to < cells.len(),
        from != to,
        is_mover_piece(cells[from]),
        cells[to] != 'k',
        cells[to] != 'K',
    ensures
        kings_present(cells.update(to, cells[from]).update(from, '.')),
        forall|k: int|
            only_at(cells, 'k', k) ==> only_at(
                cells.update(to, cells[from]).update(from, '.'),
                'k',
                k,
            ),
{
    let after = cells.update(to, cells[from]).update(from, '.');
    let own = choose|k: int| only_at(cells, 'K', k);
    let other = choose|k: int| only_at(cells, 'k', k);
    if cells[from] == 'K' {
        assert(only_at(after, 'K', to));
    } else {
        assert(only_at(after, 'K', own));
    }
    assert(only_at(after, 'k', other));
    assert forall|k: int| only_at(cells, 'k', k) implies only_at(after, 'k', k) by {
        assert(k == other);
    }
}

/// Removing or replacing a piece that is no king, by a piece that is no
/// king, leaves both kings on their cells.
pub proof fn lemma_change_keeps_kings(cells: Seq<char>, at: int, piece: char)
    requires
        kings_present(cells),
        0 <= at < cells.len(),
        cells[at] != 'K',
        cells[at] != 'k',
        piece != 'K',
        piece != 'k',
    ensures
        kings_present(cells.update(at, piece)),
        forall|k: int| only_at(cells, 'K', k) ==> only_at(cells.update(at, piece), 'K', k),
        forall|k: int| only_at(cells, 'k', k) ==> only_at(cells.update(at, piece), 'k', k),
{
    let after = cells.update(at, piece);
    let own = choose|k: int| only_at(cells, 'K', k);
    let other = choose|k: int| only_at(cells, 'k', k);
    assert(only_at(after, 'K', own));
    assert(only_at(after, 'k', other));
    assert forall|k: int| only_at(cells, 'K', k) implies only_at(after, 'K', k) by {
        assert(k == own);
    }
    assert forall|k: int| only_at(cells, 'k', k) implies only_at(after, 'k', k) by {
        assert(k == other);
    }
}

/// A square that a mover's piece attacks does not hold the opponent's king,
/// as long as that king is not attacked.
pub proof fn lemma_reached_square_holds_no_king(cells: Seq<char>, to: int, piece: char)
    requires
        opponent_king_safe(cells),
        exists|k: int| only_at(cells, 'k', k),
        0 <= to < cells.len(),
        is_mover_piece(piece),
        piece_attacks(cells, to, piece, true),
    ensures
        cells[to] != 'k',
{
    if cells[to] == 'k' {
        let other = choose|k: int| only_at(cells, 'k', k);
        assert(to == other);
        assert(attacked(cells, to, true));
    }
}

/// Handing over a position with both kings, in which the mover's king is not
/// attacked, gives a legal position.
pub proof fn lemma_hand_over_legal(made: Position)
    requires
        made.cells.len() == 120,
        made.rotated().well_formed(),
        kings_present(made.cells),
        !in_check(made.cells),
    ensures
        made.rotated().legal(),
{
    let cells = made.cells;
    let turned = rotated_cells(cells);
    let own = choose|k: int| only_at(cells, 'K', k);
    let other = choose|k: int| only_at(cells, 'k', k);
    assert(only_at(turned, 'k', 119 - own)) by {
        assert forall|j: int| 0 <= j < 120 && turned[j] == 'k' implies j == 119 - own by {
            lemma_flipped_twice(cells[119 - j]);
            assert(cells[119 - j] == 'K');
        }
    }
    assert(only_at(turned, 'K', 119 - other)) by {
        assert forall|j: int| 0 <= j < 120 && turned[j] == 'K' implies j == 119 - other by {
            lemma_flipped_twice(cells[119 - j]);
            assert(cells[119 - j] == 'k');
        }
    }
    lemma_king_square(cells, own);
    lemma_attack_rotated(cells, own, false);
    assert forall|k: int| only_at(turned, 'k', k) implies !attacked(turned, k, true) by {
        assert(k == 119 - own);
    }
}

/// Whether a ray finds an opposing piece does not depend on which of the
/// mover's pieces stands on a cell.
pub proof fn lemma_ray_ignores_own_kind(
    cells: Seq<char>,
    at: int,
    piece: char,
    from: int,
    direction: int,
    target: char,
    sliding: bool,
)
    requires
        0 <= at < cells.len(),
        is_mover_piece(cells[at]),
        is_mover_piece(piece),
        is_opponent_piece(target),
    ensures
        ray_finds(cells.update(at, piece), from, direction, target, sliding) == ray_finds(
            cells,
            from,
            direction,
            target,
            sliding,
        ),
    decreases
        (if direction > 0 {
            cells.len() - from
        } else {
            from
        }),
{
    let next = from + direction;
    if direction == 0 || next < 0 || next >= cells.len() {
    } else if next != at && cells[next] != target && sliding && cells[next] == '.' {
        lemma_ray_ignores_own_kind(cells, at, piece, next, direction, target, sliding);
    }
}

/// Whether the opponent attacks a square does not depend on which of the
/// mover's pieces stands on a cell.
pub proof fn lemma_attack_ignores_own_kind(cells: Seq<char>, at: int, piece: char, square: int)
    requires
        0 <= at < cells.len(),
        is_mover_piece(cells[at]),
        is_mover_piece(piece),
    ensures
        attacked(cells.update(at, piece), square, false) == attacked(cells, square, false),
{
    lemma_piece_attack_ignores_own_kind(cells, at, piece, square, 'P');
    lemma_piece_attack_ignores_own_kind(cells, at, piece, square, 'N');
    lemma_piece_attack_ignores_own_kind(cells, at, piece, square, 'B');
    lemma_piece_attack_ignores_own_kind(cells, at, piece, square, 'R');
    lemma_piece_attack_ignores_own_kind(cells, at, piece, square, 'Q');
    lemma_piece_attack_ignores_own_kind(cells, at, piece, square, 'K');
}

/// The same for the opposing pieces of one kind.
pub proof fn lemma_piece_attack_ignores_own_kind(
    cells: Seq<char>,
    at: int,
    piece: char,
    square: int,
    attacker: char,
)
    requires
        0 <= at < cells.len(),
        is_mover_piece(cells[at]),
        is_mover_piece(piece),
        is_mover_piece(attacker),
    ensures
        piece_attacks(cells.update(at, piece), square, attacker, false) == piece_attacks(
            cells,
            square,
            attacker,
            false,
        ),
{
    let changed = cells.update(at, piece);
    lemma_flipped_pieces(attacker);
    assert forall|step: int| 0 <= step < direction_table(attacker).len() implies step_attacks(
        changed,
        square,
        attacker,
        step,
        false,
    ) == step_attacks(cells, square, attacker, step, false) by {
        lemma_ray_ignores_own_kind(
            cells,
            at,
            piece,
            square,
            looking_direction(direction_table(attacker)[step], false),
            attacker_letter(attacker, false),
            is_sliding(attacker),
        );
    }
    if piece_attacks(changed, square, attacker, false) {
        let step = choose|step: int|
            first_capturing_step(attacker) <= step < direction_table(attacker).len()
                && #[trigger] step_attacks(changed, square, attacker, step, false);
        assert(step_attacks(cells, square, attacker, step, false));
    }
    if piece_attacks(cells, square, attacker, false) {
        let step = choose|step: int|
            first_capturing_step(attacker) <= step < direction_table(attacker).len()
                && #[trigger] step_attacks(cells, square, attacker, step, false);
        assert(step_attacks(changed, square, attacker, step, false));
    }
}

/// A position from which successors can be generated: well formed, with a
/// king of the mover, and with a score that leaves room for one more ply.
pub open spec fn ready_for_generation(p: Position) -> bool {
    &&& p.well_formed()
    &&& has_mover_king(p.cells)
    &&& score_fits(p.score)
}

/// The position `base` is `p` up to the castling rights, with an en-passant
/// target that is a ply older.
pub open spec fn same_board(p: Position, base: Position) -> bool {
    &&& base.cells == p.cells
    &&& base.white_to_move == p.white_to_move
    &&& base.score == p.score
    &&& base.en_passant_lifetime == p.aged().en_passant_lifetime
    &&& base.en_passant_square == p.en_passant_square
    &&& rights_not_regained(p, base)
}

/// A position that is ready to be handed over, and in which the mover's king
/// is not attacked, gives a sound successor.
pub proof fn lemma_handed_over_sound(p: Position, made: Position)
    requires
        ready_to_hand_over(p, made),
        !in_check(made.cells),
    ensures
        sound_successor(p, made.rotated()),
{
    if p.legal() {
        lemma_hand_over_legal(made);
    }
}

/// A move of a mover's piece to an empty square or onto an opposing piece
/// other than the king leaves a position that is ready to be handed over.
pub proof fn lemma_plain_move_ready(p: Position, base: Position, from: int, to: int)
    requires
        p.well_formed(),
        has_mover_king(p.cells),
        same_board(p, base),
        is_playing_square(from),
        is_playing_square(to),
        is_mover_piece(p.cells[from]),
        p.cells[to] == '.' || is_opponent_piece(p.cells[to]),
        p.legal() ==> p.cells[to] != 'k',
    ensures
        ready_to_hand_over(p, base.moved(from, to)),
        p.score - 100 <= base.moved(from, to).score <= p.score + 60150,
        p.cells[to] == '.' ==> base.moved(from, to).score <= p.score + 100,
{
    let made = base.moved(from, to);
    lemma_move_gain_bounds(p.cells, from, to);
    assert(cells_well_formed(made.cells)) by {
        assert forall|i: int| 0 <= i < 120 implies #[trigger] cell_fits(made.cells[i], i) by {
            assert(cell_fits(p.cells[i], i));
        }
    }
    lemma_king_stays(p.cells, from, to);
    lemma_rotated_well_formed(made.cells);
    if p.legal() {
        lemma_move_keeps_kings(p.cells, from, to);
    }
}

/// A double push of a pawn from its home rank over an empty square onto an
/// empty square leaves a position that is ready to be handed over, with the
/// passed square as the en-passant target of the other side.
pub proof fn lemma_double_push_ready(p: Position, from: int)
    requires
        p.well_formed(),
        has_mover_king(p.cells),
        is_pawn_home(from),
        p.cells[from] == 'P',
        p.cells[from - 10] == '.',
        p.cells[from - 20] == '.',
    ensures
        ready_to_hand_over(
            p,
            p.aged().with_en_passant(119 - (from - 10)).moved(from, from - 20),
        ),
{
    let to = from - 20;
    let made = p.aged().with_en_passant(119 - (from - 10)).moved(from, to);
    lemma_move_gain_bounds(p.cells, from, to);
    assert(cell_fits(p.cells[from], from));
    assert(cell_fits(p.cells[to], to));
    assert(cells_well_formed(made.cells)) by {
        assert forall|i: int| 0 <= i < 120 implies #[trigger] cell_fits(made.cells[i], i) by {
            assert(cell_fits(p.cells[i], i));
        }
    }
    lemma_king_stays(p.cells, from, to);
    lemma_rotated_well_formed(made.cells);
    let turned = made.rotated();
    assert(turned.cells[made.en_passant_square] == flipped_cell(made.cells[from - 10]));
    assert(turned.cells[made.en_passant_square + 10] == flipped_cell(made.cells[from - 20]));
    if p.legal() {
        lemma_move_keeps_kings(p.cells, from, to);
    }
}

/// An en-passant capture onto the open target leaves a position that is
/// ready to be handed over.
pub proof fn lemma_en_passant_ready(p: Position, from: int, to: int)
    requires
        p.well_formed(),
        has_mover_king(p.cells),
        p.en_passant_lifetime == 2,
        to == p.en_passant_square,
        is_playing_square(from),
        p.cells[from] == 'P',
        to == from - 11 || to == from - 9,
    ensures
        ready_to_hand_over(p, p.aged().captured_en_passant(from, to)),
{
    let made = p.aged().captured_en_passant(from, to);
    let stepped = p.cells.update(to, p.cells[from]).update(from, '.');
    lemma_move_gain_bounds(p.cells, from, to);
    lemma_passed_pawn_gain_bounds(p.cells, to);
    assert(made.cells =~= stepped.update(to + 10, '.'));
    assert(cells_well_formed(made.cells)) by {
        assert forall|i: int| 0 <= i < 120 implies #[trigger] cell_fits(made.cells[i], i) by {
            assert(cell_fits(p.cells[i], i));
        }
    }
    lemma_king_stays(p.cells, from, to);
    lemma_king_stays_after_change(stepped, to + 10, '.');
    lemma_rotated_well_formed(made.cells);
    if p.legal() {
        lemma_move_keeps_kings(p.cells, from, to);
        lemma_change_keeps_kings(stepped, to + 10, '.');
    }
}

/// A pawn that has arrived on the far rank without leaving its king
/// attacked gives, promoted and handed over, a sound successor.
pub proof fn lemma_promotion_sound(p: Position, made: Position, to: int, piece: char)
    requires
        ready_to_hand_over(p, made),
        made.score <= p.score + 60150,
        0 <= made.en_passant_lifetime <= 1,
        !in_check(made.cells),
        is_playing_square(to),
        made.cells[to] == 'P',
        is_promotion_piece(piece),
    ensures
        sound_successor(p, made.promoted(to, piece).rotated()),
{
    let promoted = made.promoted(to, piece);
    lemma_promotion_gain_bounds(piece, to);
    assert(cells_well_formed(promoted.cells)) by {
        assert forall|i: int| 0 <= i < 120 implies #[trigger] cell_fits(promoted.cells[i], i) by {
            assert(cell_fits(made.cells[i], i));
        }
    }
    lemma_rotated_well_formed(promoted.cells);
    if p.legal() {
        lemma_change_keeps_kings(made.cells, to, piece);
        let own = choose|k: int| only_at(made.cells, 'K', k);
        lemma_king_square(made.cells, own);
        lemma_king_square(promoted.cells, own);
        lemma_attack_ignores_own_kind(made.cells, to, piece, own);
        lemma_hand_over_legal(promoted);
    }
}

/// Giving up castling rights changes nothing else about a position that is
/// ready to be handed over.
pub proof fn lemma_rights_keep_ready(p: Position, made: Position, left: bool, right: bool)
    requires
        ready_to_hand_over(p, made),
        left ==> made.left_castling(),
        right ==> made.right_castling(),
    ensures
        ready_to_hand_over(p, made.with_castling(left, right)),
{
    let changed = made.with_castling(left, right);
    assert(changed.rotated().cells == made.rotated().cells);
}

/// Castling along the home rank, the king going over the rook onto a square
/// that the rook has passed or left, gives a position that is ready to be
/// handed over.
pub proof fn lemma_castling_ready(p: Position, rook_from: int, rook_to: int, king_from: int, king_to: int)
    requires
        p.well_formed(),
        has_mover_king(p.cells),
        is_playing_square(rook_from),
        is_playing_square(rook_to),
        is_playing_square(king_from),
        is_playing_square(king_to),
        p.cells[rook_from] == 'R',
        p.cells[rook_to] == '.',
        p.cells[king_from] == 'K',
        king_to == rook_from || p.cells[king_to] == '.',
        king_to != rook_to,
    ensures
        ready_to_hand_over(p, castled(p, rook_from, rook_to, king_from, king_to)),
        has_mover_king(p.aged().moved(rook_from, rook_to).moved(king_from, king_to).cells),
        cells_well_formed(p.aged().moved(rook_from, rook_to).moved(king_from, king_to).cells),
{
    let first = p.aged().moved(rook_from, rook_to);
    let second = first.moved(king_from, king_to);
    let done = castled(p, rook_from, rook_to, king_from, king_to);
    lemma_move_gain_bounds(p.cells, rook_from, rook_to);
    lemma_move_gain_bounds(first.cells, king_from, king_to);
    assert(first.cells[king_to] == '.');
    assert(cells_well_formed(first.cells)) by {
        assert forall|i: int| 0 <= i < 120 implies #[trigger] cell_fits(first.cells[i], i) by {
            assert(cell_fits(p.cells[i], i));
        }
    }
    assert(cells_well_formed(second.cells)) by {
        assert forall|i: int| 0 <= i < 120 implies #[trigger] cell_fits(second.cells[i], i) by {
            assert(cell_fits(first.cells[i], i));
        }
    }
    lemma_king_stays(p.cells, rook_from, rook_to);
    lemma_king_stays(first.cells, king_from, king_to);
    lemma_rotated_well_formed(second.cells);
    assert(done.cells == second.cells);
    if p.legal() {
        lemma_move_keeps_kings(p.cells, rook_from, rook_to);
        lemma_move_keeps_kings(first.cells, king_from, king_to);
    }
}

/// One of the steps that occur in the tables of the pieces.
pub open spec fn is_table_step(direction: int) -> bool {
    ||| direction == 1 || direction == -1 || direction == 10 || direction == -10
    ||| direction == 9 || direction == -9 || direction == 11 || direction == -11
    ||| direction == 8 || direction == -8 || direction == 12 || direction == -12
    ||| direction == 19 || direction == -19 || direction == 21 || direction == -21
    ||| direction == -20
}

/// A piece that has left a corner of the home rank for another square of
/// that rank has gone towards the other corner, and the square just before
/// its destination is the corner itself or empty.
pub open spec fn home_rank_path_clear(cells: Seq<char>, from: int, to: int) -> bool {
    &&& from == 91 && 91 <= to <= 98 ==> to > 91 && (to - 1 == 91 || cells[to - 1] == '.')
    &&& from == 98 && 91 <= to <= 98 ==> to < 98 && (to + 1 == 98 || cells[to + 1] == '.')
}

/// What is known when a piece other than a pawn, walking from `from`, lands
/// on `to`: both are squares of the playing area, the piece is the mover's,
/// the destination is empty or holds an opposing piece, and the piece
/// attacks the destination.
pub open spec fn lands_on(cells: Seq<char>, from: int, to: int) -> bool {
    &&& is_playing_square(from)
    &&& is_playing_square(to)
    &&& is_mover_piece(cells[from])
    &&& cells[from] != 'P'
    &&& cells[to] == '.' || is_opponent_piece(cells[to])
    &&& piece_attacks(cells, to, cells[from], true)
    &&& home_rank_path_clear(cells, from, to)
}

/// In a legal position no piece lands on the opponent's king.
pub proof fn lemma_landing_takes_no_king(p: Position, from: int, to: int)
    requires
        p.well_formed(),
        lands_on(p.cells, from, to),
    ensures
        p.legal() ==> p.cells[to] != 'k',
{
    if p.legal() {
        lemma_reached_square_holds_no_king(p.cells, to, p.cells[from]);
    }
}

} // verus!
