//! Generation of the legal successors of a position, check detection and
//! the counting of move trees.

use crate::chess_board::evaluation::{
    lemma_move_gain_bounds, lemma_passed_pawn_gain_bounds, lemma_promotion_gain_bounds,
};
use crate::chess_board::{
    cell_fits, cells_well_formed, flip_cell, is_border_cell, is_mover_piece,
    is_mover_piece_letter, is_playing_square, is_promotion_piece, lemma_rotated_well_formed,
    positions, ChessBoard,
};
use crate::rules::attack::{
    attacked, attacker_letter, direction_table, first_capturing_step, is_sliding,
    lemma_attack_rotated, piece_attacks, ray_finds, step_attacks,
};
use crate::rules::legality::{
    home_rank_path_clear, is_table_step, kings_present, lands_on, lemma_castling_ready,
    lemma_double_push_ready, lemma_en_passant_ready, lemma_handed_over_sound,
    lemma_has_mover_king, lemma_king_square_after_change, lemma_king_square_after_move,
    lemma_landing_takes_no_king, lemma_legal_has_king, lemma_plain_move_ready,
    lemma_promotion_sound, lemma_reached_square_holds_no_king, lemma_rights_keep_ready,
    only_at, ready_for_generation, ready_to_hand_over, sound_successor, sound_successors,
};
use crate::rules::successors::{
    after_rook_move, castled, castling_if_safe, castling_successors, first_index_of,
    handed_over_if_safe, has_mover_king, in_check, king_square, landing_successors,
    lemma_perft_sum_of_leaves, lemma_perft_sum_prefix, pawn_arrival, pawn_successors, perft,
    perft_sum, ray_successors, score_allows_depth, score_fits, square_successors,
    step_successors, successors, successors_from,
};
use vstd::prelude::*;

verus! {

/// The six kinds of pieces, in the order of their tables.
pub const PIECE_KINDS: [char; 6] = ['P', 'N', 'B', 'R', 'Q', 'K'];

/// The executable table holds the steps of the mathematical one.
pub open spec fn same_steps(stored: Seq<i64>, table: Seq<int>) -> bool {
    &&& stored.len() == table.len()
    &&& forall|k: int| 0 <= k < stored.len() ==> #[trigger] stored[k] as int == table[k]
}

/// The move generator: the table of steps of every kind of piece.
pub struct MoveGenerator {
    directions: Vec<Vec<i64>>,
}

impl MoveGenerator {
    /// The table holds, for every kind of piece, exactly its steps.
    #[verifier::type_invariant]
    pub closed spec fn tables_loaded(&self) -> bool {
        &&& self.directions@.len() == 6
        &&& forall|kind: int|
            0 <= kind < 6 ==> same_steps(
                #[trigger] self.directions@[kind]@,
                direction_table(PIECE_KINDS[kind]),
            )
    }

    /// A generator with the table of steps loaded.
    pub fn new() -> (generator: MoveGenerator)
        ensures
            generator.tables_loaded(),
    {
        let mut directions: Vec<Vec<i64>> = Vec::new();
        directions.push(vec![-10, -20, -11, -9]);
        directions.push(vec![-19, -8, 12, 21, 19, 8, -12, -21]);
        directions.push(vec![-9, 11, 9, -11]);
        directions.push(vec![-10, 1, 10, -1]);
        directions.push(vec![-10, 1, 10, -1, -9, 11, 9, -11]);
        directions.push(vec![-10, 1, 10, -1, -9, 11, 9, -11]);
        MoveGenerator { directions }
    }

    /// The steps of the pieces of kind number `kind`.
    fn steps_of(&self, kind: usize) -> (steps: &Vec<i64>)
        requires
            kind < 6,
        ensures
            same_steps(steps@, direction_table(PIECE_KINDS[kind as int])),
            steps@.len() <= 8,
            forall|k: int| 0 <= k < steps@.len() ==> -21 <= #[trigger] steps@[k] <= 21 && steps@[k] != 0,
            forall|k: int| 0 <= k < steps@.len() ==> is_table_step(#[trigger] steps@[k] as int),
            is_sliding(PIECE_KINDS[kind as int]) ==> forall|k: int|
                0 <= k < steps@.len() ==> -11 <= #[trigger] steps@[k] <= 11,
    {
        proof {
            use_type_invariant(self);
        }
        let steps = &self.directions[kind];
        proof {
            let table = direction_table(PIECE_KINDS[kind as int]);
            assert(same_steps(steps@, table));
            assert forall|k: int| 0 <= k < steps@.len() implies -21 <= #[trigger] steps@[k] <= 21
                && steps@[k] != 0 && is_table_step(steps@[k] as int) && (is_sliding(
                PIECE_KINDS[kind as int],
            ) ==> -11 <= steps@[k] <= 11) by {
                assert(steps@[k] as int == table[k]);
            }
        }
        steps
    }

    /// Walks from `square` in steps of `direction` and tells whether the
    /// first cell that is not empty holds `target`.
    fn ray_reaches(
        &self,
        current_position: &ChessBoard,
        square: i64,
        direction: i64,
        target: char,
        sliding: bool,
    ) -> (found: bool)
        requires
            cells_well_formed(current_position@.cells),
            is_playing_square(square as int),
            -21 <= direction <= 21,
            direction != 0,
            sliding ==> -11 <= direction <= 11,
        ensures
            found == ray_finds(
                current_position@.cells,
                square as int,
                direction as int,
                target,
                sliding,
            ),
    {
        let mut at: i64 = square;
        loop
            invariant
                cells_well_formed(current_position@.cells),
                is_playing_square(at as int),
                -21 <= direction <= 21,
                direction != 0,
                sliding ==> -11 <= direction <= 11,
                ray_finds(
                    current_position@.cells,
                    square as int,
                    direction as int,
                    target,
                    sliding,
                ) == ray_finds(current_position@.cells, at as int, direction as int, target, sliding),
            decreases
                (if direction > 0 {
                    120 - at
                } else {
                    at as int
                }),
        {
            let next: i64 = at + direction;
            let cell = current_position.get_square(next);
            if cell == target {
                return true;
            }
            if !sliding || cell != '.' {
                return false;
            }
            assert(cell_fits(current_position@.cells[next as int], next as int));
            at = next;
        }
    }

    /// Tells whether a piece of the opponent attacks `square_index`.
    pub fn is_square_under_attack(&self, current_position: &ChessBoard, square_index: i64) -> (under_attack: bool)
        requires
            cells_well_formed(current_position@.cells),
            is_playing_square(square_index as int),
        ensures
            under_attack == attacked(current_position@.cells, square_index as int, false),
    {
        let ghost cells = current_position@.cells;
        let ghost square = square_index as int;
        let mut kind: usize = 0;
        while kind < 6
            invariant
                kind <= 6,
                cells == current_position@.cells,
                square == square_index as int,
                cells_well_formed(cells),
                is_playing_square(square),
                forall|earlier: int|
                    0 <= earlier < kind ==> !piece_attacks(
                        cells,
                        square,
                        #[trigger] PIECE_KINDS[earlier],
                        false,
                    ),
            decreases 6 - kind,
        {
            let piece: char = PIECE_KINDS[kind];
            let target: char = flip_cell(piece);
            let sliding: bool = kind >= 2 && kind <= 4;
            let steps = self.steps_of(kind);
            let mut step: usize = if kind == 0 {
                2
            } else {
                0
            };
            while step < steps.len()
                invariant
                    kind < 6,
                    piece == PIECE_KINDS[kind as int],
                    target == attacker_letter(piece, false),
                    sliding == is_sliding(piece),
                    first_capturing_step(piece) <= step,
                    cells == current_position@.cells,
                    square == square_index as int,
                    cells_well_formed(cells),
                    is_playing_square(square),
                    same_steps(steps@, direction_table(piece)),
                    forall|k: int| 0 <= k < steps@.len() ==> -21 <= #[trigger] steps@[k] <= 21 && steps@[k] != 0,
                    sliding ==> forall|k: int| 0 <= k < steps@.len() ==> -11 <= #[trigger] steps@[k] <= 11,
                    forall|earlier: int|
                        first_capturing_step(piece) <= earlier < step ==> !#[trigger] step_attacks(
                            cells,
                            square,
                            piece,
                            earlier,
                            false,
                        ),
                decreases steps.len() - step,
            {
                let direction: i64 = steps[step];
                assert(direction as int == direction_table(piece)[step as int]);
                if self.ray_reaches(current_position, square_index, direction, target, sliding) {
                    assert(step_attacks(cells, square, piece, step as int, false));
                    assert(piece_attacks(cells, square, piece, false));
                    return true;
                }
                step = step + 1;
            }
            assert(!piece_attacks(cells, square, piece, false));
            kind = kind + 1;
        }
        assert(!piece_attacks(cells, square, PIECE_KINDS[0], false));
        assert(!piece_attacks(cells, square, PIECE_KINDS[1], false));
        assert(!piece_attacks(cells, square, PIECE_KINDS[2], false));
        assert(!piece_attacks(cells, square, PIECE_KINDS[3], false));
        assert(!piece_attacks(cells, square, PIECE_KINDS[4], false));
        assert(!piece_attacks(cells, square, PIECE_KINDS[5], false));
        false
    }

    /// The cell of the mover's king: the first in the order of the grid.
    fn find_king_index(&self, current_position: &ChessBoard) -> (king_index: i64)
        requires
            current_position@.cells.len() == 120,
        ensures
            king_index == king_square(current_position@.cells),
            0 <= king_index <= 120,
    {
        let mut index: usize = 0;
        while index < 120
            invariant
                index <= 120,
                current_position@.cells.len() == 120,
                first_index_of(current_position@.cells, 'K', 0) == first_index_of(
                    current_position@.cells,
                    'K',
                    index as int,
                ),
            decreases 120 - index,
        {
            if current_position.get_square(index as i64) == 'K' {
                return index as i64;
            }
            index = index + 1;
        }
        120
    }

    /// Tells whether the mover's king is attacked.
    pub fn detect_check(&self, current_position: &ChessBoard) -> (check: bool)
        requires
            cells_well_formed(current_position@.cells),
            has_mover_king(current_position@.cells),
        ensures
            check == in_check(current_position@.cells),
    {
        let king_index = self.find_king_index(current_position);
        proof {
            lemma_has_mover_king(current_position@.cells);
            assert(cell_fits(current_position@.cells[king_index as int], king_index as int));
        }
        self.is_square_under_attack(current_position, king_index)
    }

    /// Tells whether the square that a castling rook has gone to is attacked.
    fn detect_rook_check(&self, current_position: &ChessBoard, rook_index: i64) -> (check: bool)
        requires
            cells_well_formed(current_position@.cells),
            is_playing_square(rook_index as int),
        ensures
            check == attacked(current_position@.cells, rook_index as int, false),
    {
        self.is_square_under_attack(current_position, rook_index)
    }
}

/// The number of the table of `piece`.
pub open spec fn kind_of(piece: char) -> int {
    if piece == 'P' {
        0
    } else if piece == 'N' {
        1
    } else if piece == 'B' {
        2
    } else if piece == 'R' {
        3
    } else if piece == 'Q' {
        4
    } else {
        5
    }
}

impl MoveGenerator {
    /// Adds a successor to the list.
    fn push_successor(&self, current_position: &ChessBoard, next: ChessBoard, out: &mut Vec<ChessBoard>)
        requires
            sound_successor(current_position@, next@),
            sound_successors(current_position@, positions(old(out)@)),
        ensures
            positions(final(out)@) == positions(old(out)@).push(next@),
            sound_successors(current_position@, positions(final(out)@)),
    {
        out.push(next);
        proof {
            assert(positions(out@) =~= positions(old(out)@).push(next@));
        }
    }

    /// Hands the position over to the other side and adds it to the list,
    /// unless the mover's king is attacked in it.
    fn hand_over_if_safe(
        &self,
        current_position: &ChessBoard,
        made: ChessBoard,
        king_index: i64,
        out: &mut Vec<ChessBoard>,
    )
        requires
            score_fits(current_position@.score),
            ready_to_hand_over(current_position@, made@),
            king_index == king_square(made@.cells),
            sound_successors(current_position@, positions(old(out)@)),
        ensures
            positions(final(out)@) == positions(old(out)@) + handed_over_if_safe(made@),
            sound_successors(current_position@, positions(final(out)@)),
    {
        proof {
            lemma_has_mover_king(made@.cells);
            assert(cell_fits(made@.cells[king_index as int], king_index as int));
        }
        if !self.is_square_under_attack(&made, king_index) {
            proof {
                lemma_handed_over_sound(current_position@, made@);
            }
            let next = made.rotate();
            self.push_successor(current_position, next, out);
        }
        proof {
            assert(positions(out@) =~= positions(old(out)@) + handed_over_if_safe(made@));
        }
    }

    /// Adds the promotion of the arrived pawn to `piece`.
    fn push_promotion(
        &self,
        current_position: &ChessBoard,
        made: &ChessBoard,
        destination: i64,
        piece: char,
        out: &mut Vec<ChessBoard>,
    )
        requires
            score_fits(current_position@.score),
            ready_to_hand_over(current_position@, made@),
            made@.score <= current_position@.score + 60150,
            0 <= made@.en_passant_lifetime <= 1,
            !in_check(made@.cells),
            is_playing_square(destination as int),
            made@.cells[destination as int] == 'P',
            is_promotion_piece(piece),
            sound_successors(current_position@, positions(old(out)@)),
        ensures
            positions(final(out)@) == positions(old(out)@).push(
                made@.promoted(destination as int, piece).rotated(),
            ),
            sound_successors(current_position@, positions(final(out)@)),
    {
        proof {
            lemma_promotion_gain_bounds(piece, destination as int);
            lemma_promotion_sound(current_position@, made@, destination as int, piece);
        }
        let mut promoted = made.clone();
        promoted.promote_pawn(destination as usize, piece);
        let next = promoted.rotate();
        self.push_successor(current_position, next, out);
    }

    /// Adds what follows once a pawn has arrived on `destination`.
    fn settle_pawn_arrival(
        &self,
        current_position: &ChessBoard,
        made: ChessBoard,
        destination: i64,
        king_index: i64,
        out: &mut Vec<ChessBoard>,
    )
        requires
            score_fits(current_position@.score),
            ready_to_hand_over(current_position@, made@),
            made@.score <= current_position@.score + 60150,
            0 <= made@.en_passant_lifetime <= 1,
            is_playing_square(destination as int),
            made@.cells[destination as int] == 'P',
            king_index == king_square(made@.cells),
            sound_successors(current_position@, positions(old(out)@)),
        ensures
            positions(final(out)@) == positions(old(out)@) + pawn_arrival(
                made@,
                destination as int,
            ),
            sound_successors(current_position@, positions(final(out)@)),
    {
        proof {
            lemma_has_mover_king(made@.cells);
            assert(cell_fits(made@.cells[king_index as int], king_index as int));
        }
        if self.is_square_under_attack(&made, king_index) {
        } else if 21 <= destination && destination <= 28 {
            self.push_promotion(current_position, &made, destination, 'R', out);
            self.push_promotion(current_position, &made, destination, 'N', out);
            self.push_promotion(current_position, &made, destination, 'B', out);
            self.push_promotion(current_position, &made, destination, 'Q', out);
        } else {
            proof {
                lemma_handed_over_sound(current_position@, made@);
            }
            let next = made.rotate();
            self.push_successor(current_position, next, out);
        }
        proof {
            assert(positions(out@) =~= positions(old(out)@) + pawn_arrival(
                made@,
                destination as int,
            ));
        }
    }

    /// Adds what follows from the pawn on `index` taking the step
    /// `direction`.
    fn generate_pawn_step(
        &self,
        current_position: &ChessBoard,
        index: i64,
        direction: i64,
        king_index: i64,
        out: &mut Vec<ChessBoard>,
    )
        requires
            ready_for_generation(current_position@),
            is_playing_square(index as int),
            current_position@.cells[index as int] == 'P',
            direction == -10 || direction == -20 || direction == -11 || direction == -9,
            king_index == king_square(current_position@.cells),
            sound_successors(current_position@, positions(old(out)@)),
        ensures
            positions(final(out)@) == positions(old(out)@) + pawn_successors(
                current_position@,
                index as int,
                direction as int,
            ),
            sound_successors(current_position@, positions(final(out)@)),
    {
        let ghost p = current_position@;
        let ghost before = positions(out@);
        let destination: i64 = index + direction;
        let target = current_position.get_square(destination);
        proof {
            assert(cell_fits(p.cells[destination as int], destination as int));
            assert(cell_fits(p.cells[index as int], index as int));
        }
        if is_border_cell(target) || is_mover_piece_letter(target) {
        } else if direction == -10 {
            if target == '.' {
                let mut made = current_position.copy_for_move();
                proof {
                    lemma_plain_move_ready(p, p.aged(), index as int, destination as int);
                    lemma_king_square_after_move(p.cells, index as int, destination as int);
                }
                made.make_move(index, destination);
                self.settle_pawn_arrival(current_position, made, destination, king_index, out);
            }
        } else if direction == -20 {
            if target == '.' && 81 <= index && index <= 88 && current_position.get_square(
                index - 10,
            ) == '.' {
                let mut made = current_position.copy_for_move();
                made.set_en_passant_square(119 - (index - 10));
                proof {
                    lemma_double_push_ready(p, index as int);
                    lemma_move_gain_bounds(p.cells, index as int, destination as int);
                    lemma_king_square_after_move(p.cells, index as int, destination as int);
                }
                made.make_move(index, destination);
                self.hand_over_if_safe(current_position, made, king_index, out);
            }
        } else if current_position.is_en_passant_open_on(destination as usize) {
            let mut made = current_position.copy_for_move();
            proof {
                lemma_en_passant_ready(p, index as int, destination as int);
                lemma_move_gain_bounds(p.cells, index as int, destination as int);
                lemma_passed_pawn_gain_bounds(p.cells, destination as int);
                lemma_king_square_after_move(p.cells, index as int, destination as int);
                lemma_king_square_after_change(
                    p.cells.update(destination as int, 'P').update(index as int, '.'),
                    destination + 10,
                    '.',
                );
                assert(p.aged().captured_en_passant(index as int, destination as int).cells
                    =~= p.cells.update(destination as int, 'P').update(index as int, '.').update(
                    destination + 10,
                    '.',
                ));
            }
            made.make_en_passant_move(index, destination);
            self.hand_over_if_safe(current_position, made, king_index, out);
        } else {
            if target != '.' {
                let mut made = current_position.copy_for_move();
                proof {
                    if p.legal() {
                        let step: int = if direction == -11 {
                            2
                        } else {
                            3
                        };
                        assert(direction_table('P')[step] == direction as int);
                        assert(step_attacks(p.cells, destination as int, 'P', step, true));
                        lemma_reached_square_holds_no_king(p.cells, destination as int, 'P');
                    }
                    lemma_plain_move_ready(p, p.aged(), index as int, destination as int);
                    lemma_king_square_after_move(p.cells, index as int, destination as int);
                }
                made.make_move(index, destination);
                self.settle_pawn_arrival(current_position, made, destination, king_index, out);
            }
        }
        proof {
            assert(positions(out@) =~= before + pawn_successors(
                p,
                index as int,
                direction as int,
            ));
        }
    }

    /// Adds the castling that the rook's move stands for, with the king going
    /// from `king_from` to `king_to`, unless a square on the way is attacked.
    fn castle_if_safe(
        &self,
        current_position: &ChessBoard,
        new_position: &ChessBoard,
        out: &mut Vec<ChessBoard>,
        index: i64,
        destination: i64,
        king_from: i64,
        king_to: i64,
    )
        requires
            ready_for_generation(current_position@),
            lands_on(current_position@.cells, index as int, destination as int),
            current_position@.cells[index as int] == 'R',
            current_position@.cells[destination as int] == '.',
            current_position@.cells[king_from as int] == 'K',
            is_playing_square(king_from as int),
            is_playing_square(king_to as int),
            king_to == index || current_position@.cells[king_to as int] == '.',
            king_to != destination,
            new_position@.cells == current_position@.aged().moved(
                index as int,
                destination as int,
            ).cells,
            new_position@ == current_position@.aged().moved(
                index as int,
                destination as int,
            ).with_castling(new_position@.left_castling(), new_position@.right_castling()),
            sound_successors(current_position@, positions(old(out)@)),
        ensures
            positions(final(out)@) == positions(old(out)@) + castling_if_safe(
                current_position@,
                index as int,
                destination as int,
                king_from as int,
                king_to as int,
            ),
            sound_successors(current_position@, positions(final(out)@)),
    {
        let ghost p = current_position@;
        let ghost before = positions(out@);
        proof {
            lemma_castling_ready(
                p,
                index as int,
                destination as int,
                king_from as int,
                king_to as int,
            );
            lemma_move_gain_bounds(p.cells, index as int, destination as int);
            lemma_move_gain_bounds(new_position@.cells, king_from as int, king_to as int);
        }
        let mut board_after_castling = new_position.clone();
        board_after_castling.make_move(king_from, king_to);
        board_after_castling.set_castling_rights(false, false);
        board_after_castling.add_castling_bonus();
        assert(board_after_castling@ == castled(
            p,
            index as int,
            destination as int,
            king_from as int,
            king_to as int,
        ));
        if !self.detect_check(&board_after_castling) && !self.detect_rook_check(
            new_position,
            destination,
        ) {
            proof {
                lemma_handed_over_sound(p, board_after_castling@);
            }
            let next = board_after_castling.rotate();
            self.push_successor(current_position, next, out);
        }
        proof {
            assert(positions(out@) =~= before + castling_if_safe(
                p,
                index as int,
                destination as int,
                king_from as int,
                king_to as int,
            ));
        }
    }

    /// Looks at a rook's move for castling: takes the castling right of the
    /// rook's side from `new_position` where the rook gives it up, and adds
    /// the castling that the move stands for.
    fn enforce_castling_rules(
        &self,
        current_position: &ChessBoard,
        new_position: &mut ChessBoard,
        new_next_positions: &mut Vec<ChessBoard>,
        index: i64,
        destination: i64,
    )
        requires
            ready_for_generation(current_position@),
            lands_on(current_position@.cells, index as int, destination as int),
            current_position@.cells[index as int] == 'R',
            old(new_position)@ == current_position@.aged().moved(index as int, destination as int),
            ready_to_hand_over(current_position@, old(new_position)@),
            sound_successors(current_position@, positions(old(new_next_positions)@)),
        ensures
            final(new_position)@ == after_rook_move(
                current_position@,
                index as int,
                destination as int,
            ),
            ready_to_hand_over(current_position@, final(new_position)@),
            positions(final(new_next_positions)@) == positions(old(new_next_positions)@)
                + castling_successors(current_position@, index as int, destination as int),
            sound_successors(current_position@, positions(final(new_next_positions)@)),
    {
        let ghost p = current_position@;
        let ghost before = positions(new_next_positions@);
        let ghost made = new_position@;
        if !self.detect_check(new_position) && current_position.get_square(destination) == '.' {
            if index == 91 && new_position.get_left_castling() {
                new_position.set_left_castling(false);
                proof {
                    lemma_rights_keep_ready(p, made, false, made.right_castling());
                }
                if 91 <= destination && destination <= 98 && current_position.get_square(
                    destination + 1,
                ) == 'K' {
                    proof {
                        assert(cell_fits(p.cells[destination + 1], destination + 1));
                    }
                    self.castle_if_safe(
                        current_position,
                        new_position,
                        new_next_positions,
                        index,
                        destination,
                        destination + 1,
                        destination - 1,
                    );
                }
            } else if index == 98 && new_position.get_right_castling() {
                new_position.set_right_castling(false);
                proof {
                    lemma_rights_keep_ready(p, made, made.left_castling(), false);
                }
                if 91 <= destination && destination <= 98 && current_position.get_square(
                    destination - 1,
                ) == 'K' {
                    proof {
                        assert(cell_fits(p.cells[destination - 1], destination - 1));
                    }
                    self.castle_if_safe(
                        current_position,
                        new_position,
                        new_next_positions,
                        index,
                        destination,
                        destination - 1,
                        destination + 1,
                    );
                }
            }
        }
        proof {
            assert(positions(new_next_positions@) =~= before + castling_successors(
                p,
                index as int,
                destination as int,
            ));
        }
    }

    /// Adds what follows from the piece on `index`, not a pawn, landing on
    /// `destination`.
    fn generate_landing(
        &self,
        current_position: &ChessBoard,
        index: i64,
        destination: i64,
        king_index: i64,
        out: &mut Vec<ChessBoard>,
    )
        requires
            ready_for_generation(current_position@),
            lands_on(current_position@.cells, index as int, destination as int),
            king_index == king_square(current_position@.cells),
            sound_successors(current_position@, positions(old(out)@)),
        ensures
            positions(final(out)@) == positions(old(out)@) + landing_successors(
                current_position@,
                index as int,
                destination as int,
            ),
            sound_successors(current_position@, positions(final(out)@)),
    {
        let ghost p = current_position@;
        let ghost before = positions(out@);
        let piece = current_position.get_square(index);
        let mut new_position = current_position.copy_for_move();
        proof {
            lemma_landing_takes_no_king(p, index as int, destination as int);
            lemma_plain_move_ready(p, p.aged(), index as int, destination as int);
            lemma_king_square_after_move(p.cells, index as int, destination as int);
        }
        new_position.make_move(index, destination);
        if piece == 'K' {
            new_position.set_castling_rights(false, false);
            proof {
                lemma_rights_keep_ready(
                    p,
                    p.aged().moved(index as int, destination as int),
                    false,
                    false,
                );
            }
        }
        if piece == 'R' {
            self.enforce_castling_rules(current_position, &mut new_position, out, index, destination);
        }
        let king_after: i64 = if piece == 'K' {
            self.find_king_index(&new_position)
        } else {
            king_index
        };
        self.hand_over_if_safe(current_position, new_position, king_after, out);
        proof {
            assert(positions(out@) =~= before + landing_successors(
                p,
                index as int,
                destination as int,
            ));
        }
    }

    /// Adds what follows from the piece on `index`, not a pawn, walking in
    /// steps of `direction`.
    fn generate_ray(
        &self,
        current_position: &ChessBoard,
        index: i64,
        direction: i64,
        sliding: bool,
        king_index: i64,
        out: &mut Vec<ChessBoard>,
    )
        requires
            ready_for_generation(current_position@),
            is_playing_square(index as int),
            is_mover_piece(current_position@.cells[index as int]),
            current_position@.cells[index as int] != 'P',
            king_index == king_square(current_position@.cells),
            sliding == is_sliding(current_position@.cells[index as int]),
            exists|step: int|
                0 <= step < direction_table(current_position@.cells[index as int]).len()
                    && #[trigger] direction_table(current_position@.cells[index as int])[step]
                    == direction,
            is_table_step(direction as int),
            sliding ==> -11 <= direction <= 11,
            sound_successors(current_position@, positions(old(out)@)),
        ensures
            positions(final(out)@) == positions(old(out)@) + ray_successors(
                current_position@,
                index as int,
                direction as int,
                index as int,
            ),
            sound_successors(current_position@, positions(final(out)@)),
    {
        let ghost p = current_position@;
        let ghost before = positions(out@);
        let ghost piece = p.cells[index as int];
        let ghost step = choose|step: int|
            0 <= step < direction_table(piece).len() && #[trigger] direction_table(piece)[step]
                == direction;
        let mut at: i64 = index;
        loop
            invariant
                p == current_position@,
                ready_for_generation(p),
                is_playing_square(index as int),
                is_playing_square(at as int),
                piece == p.cells[index as int],
                is_mover_piece(piece),
                piece != 'P',
                sliding == is_sliding(piece),
                0 <= step < direction_table(piece).len(),
                direction_table(piece)[step] == direction,
                is_table_step(direction as int),
                sliding ==> -11 <= direction <= 11,
                direction > 0 ==> at >= index,
                direction < 0 ==> at <= index,
                at == index || (sliding && p.cells[at as int] == '.' && ray_finds(
                    p.cells,
                    at as int,
                    -direction,
                    piece,
                    sliding,
                )),
                sound_successors(p, positions(out@)),
                king_index == king_square(p.cells),
                before == positions(old(out)@),
                positions(out@) + ray_successors(p, index as int, direction as int, at as int)
                    == before + ray_successors(p, index as int, direction as int, index as int),
            decreases
                (if direction > 0 {
                    120 - at
                } else {
                    at as int
                }),
        {
            let destination: i64 = at + direction;
            let target = current_position.get_square(destination);
            proof {
                assert(cell_fits(p.cells[destination as int], destination as int));
            }
            if is_border_cell(target) || is_mover_piece_letter(target) {
                proof {
                    assert(positions(out@) + Seq::<crate::chess_board::Position>::empty()
                        =~= positions(out@));
                }
                return ;
            }
            proof {
                assert(ray_finds(p.cells, destination as int, -direction, piece, sliding));
                assert(step_attacks(p.cells, destination as int, piece, step, true));
                assert(piece_attacks(p.cells, destination as int, piece, true));
                assert(home_rank_path_clear(p.cells, index as int, destination as int));
            }
            let ghost earlier = positions(out@);
            self.generate_landing(current_position, index, destination, king_index, out);
            proof {
                let landed = landing_successors(p, index as int, destination as int);
                let rest = ray_successors(p, index as int, direction as int, destination as int);
                assert((earlier + landed) + rest =~= earlier + (landed + rest));
            }
            if !sliding || target != '.' {
                proof {
                    assert(ray_successors(p, index as int, direction as int, at as int)
                        == landing_successors(p, index as int, destination as int));
                }
                return ;
            }
            at = destination;
        }
    }
}

/// The number of the table of a mover's piece.
fn kind_index(piece: char) -> (kind: usize)
    requires
        is_mover_piece(piece),
    ensures
        kind == kind_of(piece),
        kind < 6,
        PIECE_KINDS[kind as int] == piece,
{
    if piece == 'P' {
        0
    } else if piece == 'N' {
        1
    } else if piece == 'B' {
        2
    } else if piece == 'R' {
        3
    } else if piece == 'Q' {
        4
    } else {
        5
    }
}

impl MoveGenerator {
    /// Adds what follows from moving the mover's piece on `index`.
    fn generate_piece_moves(
        &self,
        current_position: &ChessBoard,
        index: i64,
        king_index: i64,
        out: &mut Vec<ChessBoard>,
    )
        requires
            ready_for_generation(current_position@),
            0 <= index < 120,
            is_mover_piece(current_position@.cells[index as int]),
            king_index == king_square(current_position@.cells),
            sound_successors(current_position@, positions(old(out)@)),
        ensures
            positions(final(out)@) == positions(old(out)@) + square_successors(
                current_position@,
                index as int,
            ),
            sound_successors(current_position@, positions(final(out)@)),
    {
        let ghost p = current_position@;
        let ghost before = positions(out@);
        let piece = current_position.get_square(index);
        proof {
            assert(cell_fits(p.cells[index as int], index as int));
        }
        let kind = kind_index(piece);
        let sliding: bool = kind >= 2 && kind <= 4;
        let steps = self.steps_of(kind);
        let mut remaining: usize = steps.len();
        proof {
            assert(positions(out@) + step_successors(p, index as int, remaining as int)
                == before + step_successors(p, index as int, steps@.len() as int));
        }
        while remaining > 0
            invariant
                p == current_position@,
                ready_for_generation(p),
                is_playing_square(index as int),
                piece == p.cells[index as int],
                is_mover_piece(piece),
                kind == kind_of(piece),
                sliding == is_sliding(piece),
                remaining <= steps@.len(),
                same_steps(steps@, direction_table(piece)),
                forall|k: int| 0 <= k < steps@.len() ==> is_table_step(#[trigger] steps@[k] as int),
                sliding ==> forall|k: int| 0 <= k < steps@.len() ==> -11 <= #[trigger] steps@[k] <= 11,
                sound_successors(p, positions(out@)),
                king_index == king_square(p.cells),
                positions(out@) + step_successors(p, index as int, remaining as int) == before
                    + step_successors(p, index as int, steps@.len() as int),
            decreases remaining,
        {
            let direction: i64 = steps[remaining - 1];
            let ghost earlier = positions(out@);
            proof {
                assert(direction as int == direction_table(piece)[remaining - 1]);
            }
            if kind == 0 {
                self.generate_pawn_step(current_position, index, direction, king_index, out);
            } else {
                self.generate_ray(current_position, index, direction, sliding, king_index, out);
            }
            proof {
                let first = if piece == 'P' {
                    pawn_successors(p, index as int, direction as int)
                } else {
                    ray_successors(p, index as int, direction as int, index as int)
                };
                let rest = step_successors(p, index as int, remaining - 1);
                assert((earlier + first) + rest =~= earlier + (first + rest));
            }
            remaining = remaining - 1;
        }
        proof {
            assert(positions(out@) + Seq::<crate::chess_board::Position>::empty() =~= positions(
                out@,
            ));
        }
    }

    /// Every position that legally follows `current_position`, in the order
    /// of generation: piece by piece in the order of the grid, the steps of
    /// each from the last to the first, the squares of each walk in turn.
    pub fn generate_next_moves_from_board(&self, current_position: &ChessBoard) -> (new_next_positions: Vec<ChessBoard>)
        requires
            ready_for_generation(current_position@),
        ensures
            positions(new_next_positions@) == successors(current_position@),
            sound_successors(current_position@, successors(current_position@)),
    {
        let ghost p = current_position@;
        let mut new_next_positions: Vec<ChessBoard> = Vec::with_capacity(64);
        let king_index = self.find_king_index(current_position);
        let mut index: i64 = 0;
        proof {
            assert(positions(new_next_positions@) + successors_from(p, 0) =~= successors(p));
        }
        while index < 120
            invariant
                0 <= index <= 120,
                p == current_position@,
                ready_for_generation(p),
                king_index == king_square(p.cells),
                sound_successors(p, positions(new_next_positions@)),
                positions(new_next_positions@) + successors_from(p, index as int) == successors(p),
            decreases 120 - index,
        {
            let piece = current_position.get_square(index);
            let ghost earlier = positions(new_next_positions@);
            if is_mover_piece_letter(piece) {
                self.generate_piece_moves(
                    current_position,
                    index,
                    king_index,
                    &mut new_next_positions,
                );
            }
            proof {
                let here = square_successors(p, index as int);
                let rest = successors_from(p, index + 1);
                assert((earlier + here) + rest =~= earlier + (here + rest));
                assert(earlier + here =~= positions(new_next_positions@));
            }
            index = index + 1;
        }
        proof {
            assert(positions(new_next_positions@) + Seq::<crate::chess_board::Position>::empty()
                =~= positions(new_next_positions@));
        }
        new_next_positions
    }

    /// The number of leaves of the tree of legal moves of depth `depth`
    /// below `current_board`. The count is the same with and without
    /// `notate`; a front end that is asked to notate prints what
    /// `perft_breakdown` returns.
    pub fn calculate_perft_depth(&mut self, current_board: &ChessBoard, depth: usize, notate: bool) -> (nodes: usize)
        requires
            depth > 0 ==> current_board@.legal(),
            depth > 0 ==> score_allows_depth(current_board@.score, depth as int),
            perft(current_board@, depth as nat) <= usize::MAX,
        ensures
            nodes == perft(current_board@, depth as nat),
        decreases depth,
    {
        if depth == 0 {
            return 1;
        }
        proof {
            lemma_legal_has_king(current_board@);
        }
        let moves = self.generate_next_moves_from_board(current_board);
        let ghost list = positions(moves@);
        if depth == 1 {
            proof {
                lemma_perft_sum_of_leaves(list);
            }
            return moves.len();
        }
        let mut nodes: usize = 0;
        let mut taken: usize = 0;
        proof {
            assert(list.subrange(0, 0) =~= Seq::<crate::chess_board::Position>::empty());
        }
        while taken < moves.len()
            invariant
                taken <= moves@.len(),
                depth > 1,
                list == positions(moves@),
                list == successors(current_board@),
                sound_successors(current_board@, list),
                current_board@.legal(),
                score_allows_depth(current_board@.score, depth as int),
                perft_sum(list, (depth - 1) as nat) <= usize::MAX,
                nodes == perft_sum(list.subrange(0, taken as int), (depth - 1) as nat),
            decreases moves@.len() - taken,
        {
            proof {
                lemma_perft_sum_prefix(list, (depth - 1) as nat, taken as int);
                lemma_perft_sum_prefix(list, (depth - 1) as nat, taken + 1);
                assert(sound_successor(current_board@, list[taken as int]));
                assert(list[taken as int] == moves@[taken as int]@);
            }
            let partial_nodes = self.calculate_perft_depth(&moves[taken], depth - 1, false);
            nodes = nodes + partial_nodes;
            taken = taken + 1;
        }
        proof {
            assert(list.subrange(0, taken as int) =~= list);
        }
        nodes
    }
}

impl MoveGenerator {
    /// The legal moves of `current_board`, each with the number of leaves
    /// of the tree of depth `depth - 1` below it: what a front end prints
    /// when it is asked to notate a count.
    pub fn perft_breakdown(&mut self, current_board: &ChessBoard, depth: usize) -> (lines: Vec<
        (String, usize),
    >)
        requires
            depth >= 1,
            current_board@.legal(),
            score_allows_depth(current_board@.score, depth as int),
            perft(current_board@, depth as nat) <= usize::MAX,
        ensures
            lines@.len() == successors(current_board@).len(),
            forall|i: int|
                0 <= i < lines@.len() ==> (#[trigger] lines@[i]).0@ == successors(
                    current_board@,
                )[i].last_move && lines@[i].1 == perft(
                    successors(current_board@)[i],
                    (depth - 1) as nat,
                ),
    {
        proof {
            lemma_legal_has_king(current_board@);
        }
        let moves = self.generate_next_moves_from_board(current_board);
        let ghost list = positions(moves@);
        let mut lines: Vec<(String, usize)> = Vec::new();
        let mut taken: usize = 0;
        while taken < moves.len()
            invariant
                taken <= moves@.len(),
                depth >= 1,
                list == positions(moves@),
                list == successors(current_board@),
                sound_successors(current_board@, list),
                current_board@.legal(),
                score_allows_depth(current_board@.score, depth as int),
                perft_sum(list, (depth - 1) as nat) <= usize::MAX,
                lines@.len() == taken,
                forall|i: int|
                    0 <= i < taken ==> (#[trigger] lines@[i]).0@ == list[i].last_move
                        && lines@[i].1 == perft(list[i], (depth - 1) as nat),
            decreases moves@.len() - taken,
        {
            proof {
                lemma_perft_sum_prefix(list, (depth - 1) as nat, taken as int);
                lemma_perft_sum_prefix(list, (depth - 1) as nat, taken + 1);
                assert(sound_successor(current_board@, list[taken as int]));
                assert(list[taken as int] == moves@[taken as int]@);
            }
            let partial_nodes = self.calculate_perft_depth(&moves[taken], depth - 1, false);
            lines.push((moves[taken].get_last_move().clone(), partial_nodes));
            taken = taken + 1;
        }
        lines
    }
}

/// The one cell of the grid that holds `piece`, or nothing if no cell or
/// more than one cell holds it.
fn only_index_of(current_position: &ChessBoard, piece: char) -> (found: Option<usize>)
    requires
        current_position@.cells.len() == 120,
    ensures
        found is Some ==> only_at(current_position@.cells, piece, found->0 as int),
        found is None ==> forall|k: int| !only_at(current_position@.cells, piece, k),
{
    let ghost cells = current_position@.cells;
    let mut found: Option<usize> = None;
    let mut index: usize = 0;
    while index < 120
        invariant
            index <= 120,
            cells == current_position@.cells,
            cells.len() == 120,
            found is None ==> forall|i: int| 0 <= i < index ==> cells[i] != piece,
            found is Some ==> found->0 < index && cells[found->0 as int] == piece && forall|i: int|
                #![trigger cells[i]]
                0 <= i < index && cells[i] == piece ==> i == found->0,
        decreases 120 - index,
    {
        if current_position.get_square(index as i64) == piece {
            match found {
                Some(first) => {
                    assert forall|k: int| !only_at(cells, piece, k) by {
                        if only_at(cells, piece, k) {
                            assert(cells[first as int] == piece);
                            assert(cells[index as int] == piece);
                        }
                    }
                    return None;
                },
                None => {
                    found = Some(index);
                },
            }
        }
        index = index + 1;
    }
    found
}

impl MoveGenerator {
    /// Tells whether the position is legal: well formed, with exactly one
    /// king of each side, and with the side that is not to move out of
    /// check.
    pub fn is_legal_position(&self, current_position: &ChessBoard) -> (legal: bool)
        ensures
            legal == current_position@.legal(),
    {
        if !current_position.is_well_formed() {
            return false;
        }
        let ghost cells = current_position@.cells;
        let own = only_index_of(current_position, 'K');
        let other = only_index_of(current_position, 'k');
        match (own, other) {
            (Some(own_king), Some(other_king)) => {
                let turned = ChessBoard::from(
                    current_position.return_rotated_board_vector_with_changed_letter_case(),
                );
                proof {
                    lemma_rotated_well_formed(cells);
                    lemma_attack_rotated(cells, other_king as int, true);
                    assert(cell_fits(cells[other_king as int], other_king as int));
                }
                let attacked_by_mover = self.is_square_under_attack(
                    &turned,
                    119 - other_king as i64,
                );
                proof {
                    assert(kings_present(cells));
                    if !attacked_by_mover {
                        assert forall|k: int| only_at(cells, 'k', k) implies !attacked(
                            cells,
                            k,
                            true,
                        ) by {
                            assert(k == other_king);
                        }
                    }
                }
                !attacked_by_mover
            },
            _ => false,
        }
    }
}

} // verus!
