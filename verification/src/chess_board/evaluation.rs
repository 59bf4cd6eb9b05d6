//! Material and positional values, and the running score of a position.
//!
//! The score is kept up to date move by move. Every value is taken from the
//! mover's point of view, for the mover's pieces and the opponent's alike.

use super::{is_opponent_piece, ChessBoard, Position};
use vstd::prelude::*;

verus! {

/// Positional value of a pawn on each cell.
pub const PAWN_SQUARE_TABLE: [i64; 120] = [
       0,    0,    0,    0,    0,    0,    0,    0,    0,    0,
       0,    0,    0,    0,    0,    0,    0,    0,    0,    0,
       0,    0,    0,    0,    0,    0,    0,    0,    0,    0,
       0,   50,   50,   50,   50,   50,   50,   50,   50,    0,
       0,   10,   10,   20,   30,   30,   20,   10,   10,    0,
       0,    5,    5,   10,   27,   27,   10,    5,    5,    0,
       0,    0,    0,    0,   25,   25,    0,    0,    0,    0,
       0,    5,   -5,  -10,    0,    0,  -10,   -5,    5,    0,
       0,    5,   10,   10,  -25,  -25,   10,   10,    5,    0,
       0,    0,    0,    0,    0,    0,    0,    0,    0,    0,
       0,    0,    0,    0,    0,    0,    0,    0,    0,    0,
       0,    0,    0,    0,    0,    0,    0,    0,    0,    0,
];

/// Positional value of a knight on each cell.
pub const KNIGHT_SQUARE_TABLE: [i64; 120] = [
       0,    0,    0,    0,    0,    0,    0,    0,    0,    0,
       0,    0,    0,    0,    0,    0,    0,    0,    0,    0,
       0,  -50,  -40,  -30,  -30,  -30,  -30,  -40,  -50,    0,
       0,  -40,  -20,    0,    0,    0,    0,  -20,  -40,    0,
       0,  -30,    0,   10,   15,   15,   10,    0,  -30,    0,
       0,  -30,    5,   15,   20,   20,   15,    5,  -30,    0,
       0,  -30,    0,   15,   20,   20,   15,    0,  -30,    0,
       0,  -30,    5,   10,   15,   15,   10,    5,  -30,    0,
       0,  -40,  -20,    0,    5,    5,    0,  -20,  -40,    0,
       0,  -50,  -40,  -20,  -30,  -30,  -20,  -40,  -50,    0,
       0,    0,    0,    0,    0,    0,    0,    0,    0,    0,
       0,    0,    0,    0,    0,    0,    0,    0,    0,    0,
];

/// Positional value of a bishop on each cell.
pub const BISHOP_SQUARE_TABLE: [i64; 120] = [
       0,    0,    0,    0,    0,    0,    0,    0,    0,    0,
       0,    0,    0,    0,    0,    0,    0,    0,    0,    0,
       0,  -20,  -10,  -10,  -10,  -10,  -10,  -10,  -20,    0,
       0,  -10,    0,    0,    0,    0,    0,    0,  -10,    0,
       0,  -10,    0,    5,   10,   10,    5,    0,  -10,    0,
       0,  -10,    5,    5,   10,   10,    5,    5,  -10,    0,
       0,  -10,    0,   10,   10,   10,   10,    0,  -10,    0,
       0,  -10,   10,   10,   10,   10,   10,   10,  -10,    0,
       0,  -10,    5,    0,    0,    0,    0,    5,  -10,    0,
       0,  -20,  -10,  -40,  -10,  -10,  -40,  -10,  -20,    0,
       0,    0,    0,    0,    0,    0,    0,    0,    0,    0,
       0,    0,    0,    0,    0,    0,    0,    0,    0,    0,
];

/// Positional value of a rook on each cell.
pub const ROOK_SQUARE_TABLE: [i64; 120] = [
       0,    0,    0,    0,    0,    0,    0,    0,    0,    0,
       0,    0,    0,    0,    0,    0,    0,    0,    0,    0,
       0,    0,    0,    0,    0,    0,    0,    0,    0,    0,
       0,    5,   10,   10,   10,   10,   10,   10,    5,    0,
       0,   -5,    0,    0,    0,    0,    0,    0,   -5,    0,
       0,   -5,    0,    0,    0,    0,    0,    0,   -5,    0,
       0,   -5,    0,    0,    0,    0,    0,    0,   -5,    0,
       0,   -5,    0,    0,    0,    0,    0,    0,   -5,    0,
       0,   -5,    0,    0,    0,    0,    0,    0,   -5,    0,
       0,    0,    0,    0,    5,    5,    0,    0,    0,    0,
       0,    0,    0,    0,    0,    0,    0,    0,    0,    0,
       0,    0,    0,    0,    0,    0,    0,    0,    0,    0,
];

/// Positional value of a queen on each cell.
pub const QUEEN_SQUARE_TABLE: [i64; 120] = [
       0,    0,    0,    0,    0,    0,    0,    0,    0,    0,
       0,    0,    0,    0,    0,    0,    0,    0,    0,    0,
       0,  -20,  -10,  -10,   -5,   -5,  -10,  -10,  -20,    0,
       0,  -10,    0,    0,    0,    0,    0,    0,  -10,    0,
       0,  -10,    0,    5,    5,    5,    5,    0,  -10,    0,
       0,   -5,    0,    5,    5,    5,    5,    0,   -5,    0,
       0,    0,    0,    5,    5,    5,    5,    0,   -5,    0,
       0,  -10,    5,    5,    5,    5,    5,    0,  -10,    0,
       0,  -10,    0,    5,    0,    0,    0,    0,  -10,    0,
       0,  -20,  -10,  -10,   -5,   -5,  -10,  -10,  -20,    0,
       0,    0,    0,    0,    0,    0,    0,    0,    0,    0,
       0,    0,    0,    0,    0,    0,    0,    0,    0,    0,
];

/// Positional value of a king on each cell.
pub const KING_SQUARE_TABLE: [i64; 120] = [
       0,    0,    0,    0,    0,    0,    0,    0,    0,    0,
       0,    0,    0,    0,    0,    0,    0,    0,    0,    0,
       0,  -30,  -40,  -40,  -50,  -50,  -40,  -40,  -30,    0,
       0,  -30,  -40,  -40,  -50,  -50,  -40,  -40,  -30,    0,
       0,  -30,  -40,  -40,  -50,  -50,  -40,  -40,  -30,    0,
       0,  -30,  -40,  -40,  -50,  -50,  -40,  -40,  -30,    0,
       0,  -20,  -30,  -30,  -40,  -40,  -30,  -30,  -20,    0,
       0,  -10,  -20,  -20,  -20,  -20,  -20,  -20,  -10,    0,
       0,   20,   20,    0,    0,    0,    0,   20,   20,    0,
       0,   20,   30,   10,    0,    0,   10,   30,   20,    0,
       0,    0,    0,    0,    0,    0,    0,    0,    0,    0,
       0,    0,    0,    0,    0,    0,    0,    0,    0,    0,
];

/// Bonus added to the score of the side that castles.
pub const CASTLING_BONUS: i64 = 110;

/// Material value of a piece, whatever its colour.
pub open spec fn piece_value(piece: char) -> int {
    if piece == 'P' || piece == 'p' {
        100
    } else if piece == 'N' || piece == 'n' {
        310
    } else if piece == 'B' || piece == 'b' {
        370
    } else if piece == 'R' || piece == 'r' {
        500
    } else if piece == 'Q' || piece == 'q' {
        950
    } else if piece == 'K' || piece == 'k' {
        60000
    } else {
        0
    }
}

/// Positional value of a piece, whatever its colour, on the cell `index`.
pub open spec fn square_table_value(piece: char, index: int) -> int {
    if piece == 'P' || piece == 'p' {
        PAWN_SQUARE_TABLE[index] as int
    } else if piece == 'N' || piece == 'n' {
        KNIGHT_SQUARE_TABLE[index] as int
    } else if piece == 'B' || piece == 'b' {
        BISHOP_SQUARE_TABLE[index] as int
    } else if piece == 'R' || piece == 'r' {
        ROOK_SQUARE_TABLE[index] as int
    } else if piece == 'Q' || piece == 'q' {
        QUEEN_SQUARE_TABLE[index] as int
    } else if piece == 'K' || piece == 'k' {
        KING_SQUARE_TABLE[index] as int
    } else {
        0
    }
}

/// What the mover gains by taking `target` on `square`: its material and
/// positional value if it is an opposing piece, nothing otherwise.
pub open spec fn capture_gain(target: char, square: int) -> int {
    if is_opponent_piece(target) {
        piece_value(target) + square_table_value(target, square)
    } else {
        0
    }
}

/// Change of the score when the piece on `from` goes to `to`.
pub open spec fn move_gain(cells: Seq<char>, from: int, to: int) -> int {
    square_table_value(cells[from], to) - square_table_value(cells[from], from) + capture_gain(
        cells[to],
        to,
    )
}

/// What is added for the piece that an en-passant capture to `to` removes:
/// the material and positional value of the cell one row behind the target.
pub open spec fn passed_pawn_gain(cells: Seq<char>, to: int) -> int {
    piece_value(cells[to + 10]) + square_table_value(cells[to + 10], to + 10)
}

/// Change of the score when a pawn on `square` becomes `promoted_piece`.
pub open spec fn promotion_gain(promoted_piece: char, square: int) -> int {
    piece_value(promoted_piece) + square_table_value(promoted_piece, square)
}

/// No positional value leaves the range from -50 to 50.
pub proof fn lemma_square_table_bounds(piece: char, index: int)
    requires
        0 <= index < 120,
    ensures
        -50 <= square_table_value(piece, index) <= 50,
{
}

/// No material value is negative or above the king's.
pub proof fn lemma_piece_value_bounds(piece: char)
    ensures
        0 <= piece_value(piece) <= 60000,
{
}

/// A move changes the score by no less than -100 and no more than 60150.
pub proof fn lemma_move_gain_bounds(cells: Seq<char>, from: int, to: int)
    requires
        0 <= from < 120,
        0 <= to < 120,
    ensures
        -100 <= move_gain(cells, from, to) <= 60150,
        !is_opponent_piece(cells[to]) ==> move_gain(cells, from, to) <= 100,
{
    lemma_square_table_bounds(cells[from], to);
    lemma_square_table_bounds(cells[from], from);
    lemma_square_table_bounds(cells[to], to);
    lemma_piece_value_bounds(cells[to]);
}

/// What an en-passant capture adds for the removed piece lies between -50
/// and 60050.
pub proof fn lemma_passed_pawn_gain_bounds(cells: Seq<char>, to: int)
    requires
        0 <= to < 110,
    ensures
        -50 <= passed_pawn_gain(cells, to) <= 60050,
{
    lemma_square_table_bounds(cells[to + 10], to + 10);
    lemma_piece_value_bounds(cells[to + 10]);
}

/// A promotion adds no less than -50 and no more than 60050 to the score.
pub proof fn lemma_promotion_gain_bounds(piece: char, square: int)
    requires
        0 <= square < 120,
    ensures
        -50 <= promotion_gain(piece, square) <= 60050,
        piece == 'R' || piece == 'N' || piece == 'B' || piece == 'Q' ==> promotion_gain(
            piece,
            square,
        ) <= 1000,
{
    lemma_square_table_bounds(piece, square);
    lemma_piece_value_bounds(piece);
}

impl ChessBoard {
    /// Adds to the score what moving the piece on `location` to
    /// `destination` is worth.
    pub(crate) fn evaluate_move(&mut self, location: usize, destination: usize)
        requires
            location < 120,
            destination < 120,
            old(self)@.cells.len() == 120,
            i64::MIN <= old(self)@.score + move_gain(
                old(self)@.cells,
                location as int,
                destination as int,
            ) <= i64::MAX,
        ensures
            final(self)@ == (Position {
                score: old(self)@.score + move_gain(
                    old(self)@.cells,
                    location as int,
                    destination as int,
                ),
                ..old(self)@
            }),
    {
        let location_piece = self.board_vector[location];
        let destination_piece = self.board_vector[destination];
        let location_score = self.match_square_to_score(location, location_piece);
        let destination_score = self.match_square_to_score(destination, location_piece);
        let mut score: i64 = destination_score - location_score;
        if super::is_opponent_piece_letter(destination_piece) {
            let capture_bonus = self.evaluate_piece_score(destination_piece);
            score += capture_bonus + self.match_square_to_score(destination, destination_piece);
        }
        self.score += score;
    }

    /// Adds to the score what an en-passant capture from `location` to
    /// `destination` is worth.
    pub(crate) fn evaluate_en_passant_move(&mut self, location: usize, destination: usize)
        requires
            location < 120,
            destination < 110,
            old(self)@.cells.len() == 120,
            i64::MIN <= old(self)@.score + move_gain(
                old(self)@.cells,
                location as int,
                destination as int,
            ) <= i64::MAX,
            i64::MIN <= old(self)@.score + move_gain(
                old(self)@.cells,
                location as int,
                destination as int,
            ) + passed_pawn_gain(old(self)@.cells, destination as int) <= i64::MAX,
        ensures
            final(self)@ == (Position {
                score: old(self)@.score + move_gain(
                    old(self)@.cells,
                    location as int,
                    destination as int,
                ) + passed_pawn_gain(old(self)@.cells, destination as int),
                ..old(self)@
            }),
    {
        self.evaluate_move(location, destination);
        let en_passant_square_piece = self.board_vector[destination + 10];
        let capture_bonus = self.evaluate_piece_score(en_passant_square_piece);
        self.score += capture_bonus + self.match_square_to_score(
            destination + 10,
            en_passant_square_piece,
        );
    }

    /// Adds to the score what `promoted_piece` is worth on `location`.
    pub(crate) fn evaluate_pawn_promotion(&mut self, location: usize, promoted_piece: char)
        requires
            location < 120,
            i64::MIN <= old(self)@.score + promotion_gain(promoted_piece, location as int)
                <= i64::MAX,
        ensures
            final(self)@ == (Position {
                score: old(self)@.score + promotion_gain(promoted_piece, location as int),
                ..old(self)@
            }),
    {
        let promotion_bonus = self.evaluate_piece_score(promoted_piece);
        self.score += promotion_bonus + self.match_square_to_score(location, promoted_piece);
    }

    /// Adds the castling bonus to the score.
    pub fn add_castling_bonus(&mut self)
        requires
            old(self)@.score + CASTLING_BONUS <= i64::MAX,
        ensures
            final(self)@ == (Position { score: old(self)@.score + CASTLING_BONUS, ..old(self)@ }),
    {
        self.score += CASTLING_BONUS;
    }

    /// Positional value of `piece` on the cell `index`.
    pub(crate) fn match_square_to_score(&self, index: usize, piece: char) -> (value: i64)
        requires
            index < 120,
        ensures
            value == square_table_value(piece, index as int),
            -50 <= value <= 50,
    {
        if piece == 'P' || piece == 'p' {
            PAWN_SQUARE_TABLE[index]
        } else if piece == 'N' || piece == 'n' {
            KNIGHT_SQUARE_TABLE[index]
        } else if piece == 'B' || piece == 'b' {
            BISHOP_SQUARE_TABLE[index]
        } else if piece == 'R' || piece == 'r' {
            ROOK_SQUARE_TABLE[index]
        } else if piece == 'Q' || piece == 'q' {
            QUEEN_SQUARE_TABLE[index]
        } else if piece == 'K' || piece == 'k' {
            KING_SQUARE_TABLE[index]
        } else {
            0
        }
    }

    /// Material value of `piece`.
    pub(crate) fn evaluate_piece_score(&self, piece: char) -> (value: i64)
        ensures
            value == piece_value(piece),
    {
        if piece == 'P' || piece == 'p' {
            100
        } else if piece == 'N' || piece == 'n' {
            310
        } else if piece == 'B' || piece == 'b' {
            370
        } else if piece == 'R' || piece == 'r' {
            500
        } else if piece == 'Q' || piece == 'q' {
            950
        } else if piece == 'K' || piece == 'k' {
            60000
        } else {
            0
        }
    }

    /// The score of the position, from the mover's point of view.
    pub fn get_score(&self) -> (score: i64)
        ensures
            score == self@.score,
    {
        self.score
    }
}

} // verus!
