//! The board and everything that is remembered about a position.
//!
//! A board is a flat grid of 120 cells, ten wide and twelve tall: the 8x8
//! playing area with a two-cell border on every side. It is always stored
//! from the mover's point of view: the mover's pieces are upper case and move
//! towards lower indices. Passing the turn rotates the grid by 180 degrees and
//! swaps the case of every piece.

use vstd::prelude::*;

use evaluation::{move_gain, passed_pawn_gain, promotion_gain};
use notation::{move_name, symbol_text};

pub mod evaluation;
pub mod fen;
pub mod notation;
pub mod render;
pub mod setups;
pub mod static_value;

verus! {

/// Marker of an empty square of the playing area.
pub const EMPTY_SQUARE: char = '.';

/// Everything known about a position, as plain mathematical values.
pub struct Position {
    /// The grid, from the mover's point of view.
    pub cells: Seq<char>,
    /// True if white is the mover.
    pub white_to_move: bool,
    /// White's rights to castle with the rook of the low and of the high
    /// corner of the grid as white sees it.
    pub white_castling: (bool, bool),
    /// Black's rights to castle with the rook of the low and of the high
    /// corner of the grid as black sees it.
    pub black_castling: (bool, bool),
    /// The cell that a pawn has passed in a double push, named as the side
    /// sees it that may capture there.
    pub en_passant_square: int,
    /// The plies that the en-passant target has left: 2 when it is made, and
    /// open to capture as long as it is more than 1 before a ply is
    /// generated.
    pub en_passant_lifetime: int,
    /// The notation of the move that led to the position.
    pub last_move: Seq<char>,
    /// The running evaluation, from the mover's point of view.
    pub score: int,
}

/// A position as the engine stores it.
pub struct ChessBoard {
    /// The grid, from the mover's point of view.
    pub board_vector: Vec<char>,
    /// True if white is the mover.
    current_color: bool,
    /// White's castling rights: with the rook of the low corner, with the
    /// rook of the high corner.
    white_castling_rights: (bool, bool),
    /// Black's castling rights: with the rook of the low corner, with the
    /// rook of the high corner.
    black_castling_rights: (bool, bool),
    /// The en-passant target.
    pub en_passant_square: usize,
    /// The plies that the en-passant target has left.
    en_passant_lifetime: usize,
    /// The notation of the move that led to the position.
    pub last_move: String,
    /// The running evaluation, from the mover's point of view.
    score: i64,
}

impl View for ChessBoard {
    type V = Position;

    closed spec fn view(&self) -> Position {
        Position {
            cells: self.board_vector@,
            white_to_move: self.current_color,
            white_castling: self.white_castling_rights,
            black_castling: self.black_castling_rights,
            en_passant_square: self.en_passant_square as int,
            en_passant_lifetime: self.en_passant_lifetime as int,
            last_move: self.last_move@,
            score: self.score as int,
        }
    }
}

/// One of the mover's six piece letters.
pub open spec fn is_mover_piece(c: char) -> bool {
    c == 'P' || c == 'N' || c == 'B' || c == 'R' || c == 'Q' || c == 'K'
}

/// One of the opponent's six piece letters.
pub open spec fn is_opponent_piece(c: char) -> bool {
    c == 'p' || c == 'n' || c == 'b' || c == 'r' || c == 'q' || c == 'k'
}

/// An off-board sentinel.
pub open spec fn is_border(c: char) -> bool {
    c == ' ' || c == '\n'
}

/// One of the four letters that a pawn can be promoted to.
pub open spec fn is_promotion_piece(c: char) -> bool {
    c == 'R' || c == 'N' || c == 'B' || c == 'Q'
}

/// The index lies in the 8x8 playing area.
pub open spec fn is_playing_square(index: int) -> bool {
    21 <= index <= 98 && 1 <= index % 10 <= 8
}

/// The cell value `c` may stand at `index`: a sentinel on the border, an
/// empty marker or a piece letter in the playing area.
pub open spec fn cell_fits(c: char, index: int) -> bool {
    if is_playing_square(index) {
        c == '.' || is_mover_piece(c) || is_opponent_piece(c)
    } else {
        is_border(c)
    }
}

/// The grid has 120 cells and every one of them fits its place.
pub open spec fn cells_well_formed(cells: Seq<char>) -> bool {
    &&& cells.len() == 120
    &&& forall|i: int| 0 <= i < 120 ==> #[trigger] cell_fits(cells[i], i)
}

/// What a cell becomes when the board is handed to the other side: letters
/// change case and the two sentinels trade places.
pub open spec fn flipped_cell(c: char) -> char {
    if c == '\n' {
        ' '
    } else if c == ' ' {
        '\n'
    } else if 'A' <= c && c <= 'Z' {
        ((c as u8) + 32) as u8 as char
    } else if 'a' <= c && c <= 'z' {
        ((c as u8) - 32) as u8 as char
    } else {
        c
    }
}

/// The grid turned by 180 degrees with every cell flipped.
pub open spec fn rotated_cells(cells: Seq<char>) -> Seq<char> {
    Seq::new(cells.len(), |i: int| flipped_cell(cells[cells.len() - 1 - i]))
}

impl Position {
    /// The position that `ChessBoard::new` stands for: no cells yet, white to
    /// move, every castling right, no en-passant target.
    pub open spec fn blank() -> Position {
        Position {
            cells: Seq::empty(),
            white_to_move: true,
            white_castling: (true, true),
            black_castling: (true, true),
            en_passant_square: 0,
            en_passant_lifetime: 0,
            last_move: Seq::empty(),
            score: 0,
        }
    }

    /// The mover's right to castle with the rook of the low corner.
    pub open spec fn left_castling(self) -> bool {
        if self.white_to_move {
            self.white_castling.0
        } else {
            self.black_castling.0
        }
    }

    /// The mover's right to castle with the rook of the high corner.
    pub open spec fn right_castling(self) -> bool {
        if self.white_to_move {
            self.white_castling.1
        } else {
            self.black_castling.1
        }
    }

    /// The same position with the mover's castling rights replaced.
    pub open spec fn with_castling(self, left: bool, right: bool) -> Position {
        if self.white_to_move {
            Position { white_castling: (left, right), ..self }
        } else {
            Position { black_castling: (left, right), ..self }
        }
    }

    /// The same position with a fresh en-passant target.
    pub open spec fn with_en_passant(self, square: int) -> Position {
        Position { en_passant_square: square, en_passant_lifetime: 2, ..self }
    }

    /// The en-passant target can still be captured on.
    pub open spec fn en_passant_active(self) -> bool {
        self.en_passant_lifetime > 0
    }

    /// The same position one ply later in the life of its en-passant target.
    pub open spec fn aged(self) -> Position {
        if self.en_passant_lifetime > 0 {
            Position { en_passant_lifetime: self.en_passant_lifetime - 1, ..self }
        } else {
            self
        }
    }

    /// The position as the other side sees it: the grid rotated, the colour
    /// switched and the score negated.
    pub open spec fn rotated(self) -> Position {
        Position {
            cells: rotated_cells(self.cells),
            white_to_move: !self.white_to_move,
            score: -self.score,
            ..self
        }
    }

    /// The position after the piece on `from` went to `to`: the destination
    /// holds the piece, the origin is empty, the move is notated and the score
    /// has gained what the move is worth.
    pub open spec fn moved(self, from: int, to: int) -> Position {
        Position {
            cells: self.cells.update(to, self.cells[from]).update(from, '.'),
            last_move: move_name(from, to, self.white_to_move),
            score: self.score + move_gain(self.cells, from, to),
            ..self
        }
    }

    /// The position after the pawn on `from` captured en passant on `to`: as
    /// after a plain move, and the cell one row behind the target is empty
    /// and paid for.
    pub open spec fn captured_en_passant(self, from: int, to: int) -> Position {
        Position {
            cells: self.cells.update(to, self.cells[from]).update(to + 10, '.').update(from, '.'),
            last_move: move_name(from, to, self.white_to_move),
            score: self.score + move_gain(self.cells, from, to) + passed_pawn_gain(self.cells, to),
            ..self
        }
    }

    /// The last move without the promotion letter that a five-letter
    /// notation ends in.
    pub open spec fn last_move_without_promotion(self) -> Seq<char> {
        if self.last_move.len() == 5 {
            self.last_move.drop_last()
        } else {
            self.last_move
        }
    }

    /// The position after the pawn on `square` became `piece`: the cell holds
    /// the piece, the notation ends in its lower-case letter and the score
    /// has gained its material and positional value.
    pub open spec fn promoted(self, square: int, piece: char) -> Position {
        Position {
            cells: self.cells.update(square, piece),
            last_move: self.last_move_without_promotion().push(flipped_cell(piece)),
            score: self.score + promotion_gain(piece, square),
            ..self
        }
    }

    /// The grid is well formed and a target that the next generated ply may
    /// capture on lies on an empty square right behind an opposing pawn.
    pub open spec fn well_formed(self) -> bool {
        &&& cells_well_formed(self.cells)
        &&& 0 <= self.en_passant_lifetime <= 2
        &&& self.en_passant_lifetime == 2 ==> {
            &&& is_playing_square(self.en_passant_square)
            &&& is_playing_square(self.en_passant_square + 10)
            &&& self.cells[self.en_passant_square] == '.'
            &&& self.cells[self.en_passant_square + 10] == 'p'
        }
    }
}

/// The positions that a list of boards stands for.
pub open spec fn positions(boards: Seq<ChessBoard>) -> Seq<Position> {
    boards.map_values(|board: ChessBoard| board@)
}

/// Tells whether `c` is an off-board sentinel.
pub fn is_border_cell(c: char) -> (r: bool)
    ensures
        r == is_border(c),
{
    c == ' ' || c == '\n'
}

/// Tells whether the index lies in the 8x8 playing area.
pub fn is_playing_square_index(index: usize) -> (r: bool)
    ensures
        r == is_playing_square(index as int),
{
    21 <= index && index <= 98 && 1 <= index % 10 && index % 10 <= 8
}

/// Tells whether `c` is one of the mover's piece letters.
pub fn is_mover_piece_letter(c: char) -> (r: bool)
    ensures
        r == is_mover_piece(c),
{
    c == 'P' || c == 'N' || c == 'B' || c == 'R' || c == 'Q' || c == 'K'
}

/// Tells whether `c` is one of the opponent's piece letters.
pub fn is_opponent_piece_letter(c: char) -> (r: bool)
    ensures
        r == is_opponent_piece(c),
{
    c == 'p' || c == 'n' || c == 'b' || c == 'r' || c == 'q' || c == 'k'
}

/// Flips one cell for the other side's point of view.
pub fn flip_cell(c: char) -> (r: char)
    ensures
        r == flipped_cell(c),
{
    if c == EMPTY_SQUARE {
        c
    } else if c == ' ' {
        '\n'
    } else if c == '\n' {
        ' '
    } else if c >= 'a' && c <= 'z' {
        let code: u8 = c as u8;
        (code - 32) as char
    } else if c >= 'A' && c <= 'Z' {
        let code: u8 = c as u8;
        (code + 32) as char
    } else {
        c
    }
}

/// Turns a grid by 180 degrees and flips every cell, in place.
pub fn rotate_cells(cells: &mut Vec<char>)
    ensures
        final(cells)@ == rotated_cells(old(cells)@),
{
    let length: usize = cells.len();
    let mut low: usize = 0;
    while low < length - low
        invariant
            length == old(cells)@.len(),
            cells@.len() == length,
            low <= length,
            low <= length - low + 1,
            forall|i: int|
                0 <= i < low ==> cells@[i] == flipped_cell(old(cells)@[length - 1 - i]),
            forall|i: int|
                length - low <= i < length ==> cells@[i] == flipped_cell(
                    old(cells)@[length - 1 - i],
                ),
            forall|i: int| low <= i < length - low ==> cells@[i] == old(cells)@[i],
        decreases length - low,
    {
        let high: usize = length - 1 - low;
        let first = flip_cell(cells[low]);
        let last = flip_cell(cells[high]);
        cells[low] = last;
        cells[high] = first;
        low = low + 1;
    }
    assert(cells@ =~= rotated_cells(old(cells)@));
}

/// Flipping a cell twice gives the cell back.
pub proof fn lemma_flipped_twice(c: char)
    ensures
        flipped_cell(flipped_cell(c)) == c,
{
}

/// Flipping maps the mover's letters to the opponent's and back, and keeps
/// the empty marker.
pub proof fn lemma_flipped_pieces(c: char)
    ensures
        is_mover_piece(c) <==> is_opponent_piece(flipped_cell(c)),
        is_opponent_piece(c) <==> is_mover_piece(flipped_cell(c)),
        c == '.' <==> flipped_cell(c) == '.',
        is_border(c) <==> is_border(flipped_cell(c)),
{
}

/// Rotating a well-formed grid gives a well-formed grid.
pub proof fn lemma_rotated_well_formed(cells: Seq<char>)
    requires
        cells_well_formed(cells),
    ensures
        cells_well_formed(rotated_cells(cells)),
{
    let r = rotated_cells(cells);
    assert forall|i: int| 0 <= i < 120 implies #[trigger] cell_fits(r[i], i) by {
        let j = 119 - i;
        lemma_flipped_pieces(cells[j]);
        assert(is_playing_square(i) <==> is_playing_square(j));
        assert(cell_fits(cells[j], j));
    }
}

/// Rotating a grid twice gives the grid back.
pub proof fn lemma_rotated_twice(cells: Seq<char>)
    ensures
        rotated_cells(rotated_cells(cells)) == cells,
{
    let r = rotated_cells(rotated_cells(cells));
    assert forall|i: int| 0 <= i < cells.len() implies r[i] == cells[i] by {
        lemma_flipped_twice(cells[i]);
    }
    assert(r =~= cells);
}

impl ChessBoard {
    /// A board without cells: white to move, every castling right, score 0.
    pub fn new() -> (board: ChessBoard)
        ensures
            board@ == Position::blank(),
    {
        ChessBoard {
            board_vector: Vec::new(),
            current_color: true,
            white_castling_rights: (true, true),
            black_castling_rights: (true, true),
            en_passant_square: 0,
            en_passant_lifetime: 0,
            last_move: String::new(),
            score: 0,
        }
    }

    /// A board with the given cells and the bookkeeping of a new board.
    pub fn from(board_vector: Vec<char>) -> (board: ChessBoard)
        ensures
            board@ == (Position { cells: board_vector@, ..Position::blank() }),
    {
        ChessBoard {
            board_vector,
            current_color: true,
            white_castling_rights: (true, true),
            black_castling_rights: (true, true),
            en_passant_square: 0,
            en_passant_lifetime: 0,
            last_move: String::new(),
            score: 0,
        }
    }

    /// An independent copy of the board.
    pub fn clone(&self) -> (copy: ChessBoard)
        ensures
            copy@ == self@,
    {
        ChessBoard {
            board_vector: self.board_vector.clone(),
            current_color: self.current_color,
            white_castling_rights: self.white_castling_rights,
            black_castling_rights: self.black_castling_rights,
            en_passant_square: self.en_passant_square,
            en_passant_lifetime: self.en_passant_lifetime,
            last_move: self.last_move.clone(),
            score: self.score,
        }
    }

    /// Tells whether the position is well formed.
    pub fn is_well_formed(&self) -> (well_formed: bool)
        ensures
            well_formed == self@.well_formed(),
    {
        if self.board_vector.len() != 120 {
            return false;
        }
        let mut index: usize = 0;
        while index < 120
            invariant
                index <= 120,
                self@.cells.len() == 120,
                forall|i: int| 0 <= i < index ==> #[trigger] cell_fits(self@.cells[i], i),
            decreases 120 - index,
        {
            let cell = self.board_vector[index];
            let fits = if is_playing_square_index(index) {
                cell == EMPTY_SQUARE || is_mover_piece_letter(cell) || is_opponent_piece_letter(cell)
            } else {
                is_border_cell(cell)
            };
            if !fits {
                assert(!cell_fits(self@.cells[index as int], index as int));
                return false;
            }
            index = index + 1;
        }
        if self.en_passant_lifetime > 2 {
            return false;
        }
        if self.en_passant_lifetime == 2 {
            let target: usize = self.en_passant_square;
            if !is_playing_square_index(target) {
                return false;
            }
            return is_playing_square_index(target + 10) && self.board_vector[target]
                == EMPTY_SQUARE && self.board_vector[target + 10] == 'p';
        }
        true
    }

    /// The notation of the move that led to the position.
    pub fn get_last_move(&self) -> (notation: &String)
        ensures
            notation@ == self@.last_move,
    {
        &self.last_move
    }

    /// Tells whether a pawn of the mover can capture en passant on
    /// `square` in the ply that is generated next: the target is that square
    /// and is still open once it is a ply older.
    pub fn is_en_passant_open_on(&self, square: usize) -> (open: bool)
        ensures
            open == (self@.aged().en_passant_active() && square == self@.aged().en_passant_square),
    {
        self.en_passant_lifetime >= 2 && square == self.en_passant_square
    }

    /// The cell at `target_square`.
    pub fn get_square(&self, target_square: i64) -> (cell: char)
        requires
            0 <= target_square < self@.cells.len(),
        ensures
            cell == self@.cells[target_square as int],
    {
        assert(target_square < self.board_vector.len());
        self.board_vector[target_square as usize]
    }

    /// The grid as the other side sees it.
    pub fn return_rotated_board_vector_with_changed_letter_case(&self) -> (rotated: Vec<char>)
        ensures
            rotated@ == rotated_cells(self@.cells),
    {
        let length: usize = self.board_vector.len();
        let mut rotated: Vec<char> = Vec::with_capacity(length);
        let mut taken: usize = 0;
        while taken < length
            invariant
                length == self.board_vector@.len(),
                taken <= length,
                rotated@.len() == taken,
                forall|i: int|
                    0 <= i < taken ==> rotated@[i] == flipped_cell(
                        self.board_vector@[length - 1 - i],
                    ),
            decreases length - taken,
        {
            rotated.push(flip_cell(self.board_vector[length - 1 - taken]));
            taken = taken + 1;
        }
        assert(rotated@ =~= rotated_cells(self@.cells));
        rotated
    }

    /// The position handed to the other side.
    pub fn clone_and_rotate(&self) -> (next: ChessBoard)
        requires
            self@.score > i64::MIN,
        ensures
            next@ == self@.rotated(),
    {
        ChessBoard {
            board_vector: self.return_rotated_board_vector_with_changed_letter_case(),
            current_color: !self.current_color,
            white_castling_rights: self.white_castling_rights,
            black_castling_rights: self.black_castling_rights,
            en_passant_square: self.en_passant_square,
            en_passant_lifetime: self.en_passant_lifetime,
            last_move: self.last_move.clone(),
            score: -self.score,
        }
    }

    /// Moves the piece on `location` to `destination`, whatever stands
    /// there, notates the move and brings the score up to date. Both cells
    /// lie in the playing area, so a well-formed grid stays well formed.
    pub fn make_move(&mut self, location: i64, destination: i64)
        requires
            old(self)@.cells.len() == 120,
            is_playing_square(location as int),
            is_playing_square(destination as int),
            i64::MIN <= old(self)@.score + move_gain(
                old(self)@.cells,
                location as int,
                destination as int,
            ) <= i64::MAX,
        ensures
            final(self)@ == old(self)@.moved(location as int, destination as int),
            cells_well_formed(old(self)@.cells) ==> cells_well_formed(final(self)@.cells),
    {
        proof {
            let before = old(self)@.cells;
            let after = old(self)@.moved(location as int, destination as int).cells;
            if cells_well_formed(before) {
                assert forall|i: int| 0 <= i < 120 implies #[trigger] cell_fits(after[i], i) by {
                    assert(cell_fits(before[i], i));
                    assert(cell_fits(before[location as int], location as int));
                }
            }
        }
        let location: usize = location as usize;
        let destination: usize = destination as usize;
        self.notate_move(location, destination);
        self.evaluate_move(location, destination);
        let piece = self.board_vector[location];
        self.board_vector[destination] = piece;
        self.board_vector[location] = EMPTY_SQUARE;
    }

    /// Moves the pawn on `location` to the en-passant target `destination`
    /// and removes what stands one row behind the target. All three cells
    /// lie in the playing area, so a well-formed grid stays well formed.
    pub fn make_en_passant_move(&mut self, location: i64, destination: i64)
        requires
            old(self)@.cells.len() == 120,
            is_playing_square(location as int),
            is_playing_square(destination as int),
            is_playing_square(destination + 10),
            i64::MIN <= old(self)@.score + move_gain(
                old(self)@.cells,
                location as int,
                destination as int,
            ) <= i64::MAX,
            i64::MIN <= old(self)@.score + move_gain(
                old(self)@.cells,
                location as int,
                destination as int,
            ) + passed_pawn_gain(old(self)@.cells, destination as int) <= i64::MAX,
        ensures
            final(self)@ == old(self)@.captured_en_passant(location as int, destination as int),
            cells_well_formed(old(self)@.cells) ==> cells_well_formed(final(self)@.cells),
    {
        proof {
            let before = old(self)@.cells;
            let after = old(self)@.captured_en_passant(
                location as int,
                destination as int,
            ).cells;
            if cells_well_formed(before) {
                assert forall|i: int| 0 <= i < 120 implies #[trigger] cell_fits(after[i], i) by {
                    assert(cell_fits(before[i], i));
                    assert(cell_fits(before[location as int], location as int));
                }
            }
        }
        let location: usize = location as usize;
        let destination: usize = destination as usize;
        self.notate_move(location, destination);
        self.evaluate_en_passant_move(location, destination);
        let piece = self.board_vector[location];
        self.board_vector[destination] = piece;
        self.board_vector[destination + 10] = EMPTY_SQUARE;
        self.board_vector[location] = EMPTY_SQUARE;
    }

    /// Turns what stands on `location`, a cell of the playing area, into
    /// `promoted_piece`. A promotion letter that the notation of the last
    /// move already ends in is replaced. A well-formed grid stays well
    /// formed.
    pub fn promote_pawn(&mut self, location: usize, promoted_piece: char)
        requires
            location < old(self)@.cells.len(),
            is_playing_square(location as int),
            is_promotion_piece(promoted_piece),
            i64::MIN <= old(self)@.score + promotion_gain(promoted_piece, location as int)
                <= i64::MAX,
        ensures
            final(self)@ == old(self)@.promoted(location as int, promoted_piece),
            cells_well_formed(old(self)@.cells) ==> cells_well_formed(final(self)@.cells),
    {
        proof {
            let before = old(self)@.cells;
            let after = old(self)@.promoted(location as int, promoted_piece).cells;
            if cells_well_formed(before) {
                assert forall|i: int| 0 <= i < 120 implies #[trigger] cell_fits(after[i], i) by {
                    assert(cell_fits(before[i], i));
                }
            }
        }
        let count: usize = self.last_move.as_str().unicode_len();
        let mut notation = if count == 5 {
            let kept = self.last_move.as_str().substring_char(0, 4);
            assert(kept@ =~= self.last_move@.drop_last());
            String::from_str(kept)
        } else {
            self.last_move.clone()
        };
        self.evaluate_pawn_promotion(location, promoted_piece);
        notation.append(symbol_text(flip_cell(promoted_piece)));
        assert(notation@ =~= old(self)@.last_move_without_promotion().push(
            flipped_cell(promoted_piece),
        ));
        self.last_move = notation;
        self.board_vector[location] = promoted_piece;
    }

    /// The position handed to the other side, in place of the board.
    pub fn rotate(self) -> (next: ChessBoard)
        requires
            self@.score > i64::MIN,
        ensures
            next@ == self@.rotated(),
    {
        let mut next = self;
        rotate_cells(&mut next.board_vector);
        next.current_color = !next.current_color;
        next.score = -next.score;
        next
    }

    /// A copy of the board on which the next move can be made: the
    /// en-passant target is one ply older and no move is notated.
    pub fn copy_for_move(&self) -> (copy: ChessBoard)
        ensures
            copy@ == (Position { last_move: Seq::empty(), ..self@.aged() }),
    {
        ChessBoard {
            board_vector: self.board_vector.clone(),
            current_color: self.current_color,
            white_castling_rights: self.white_castling_rights,
            black_castling_rights: self.black_castling_rights,
            en_passant_square: self.en_passant_square,
            en_passant_lifetime: if self.en_passant_lifetime > 0 {
                self.en_passant_lifetime - 1
            } else {
                0
            },
            last_move: String::new(),
            score: self.score,
        }
    }

    /// Restricts both castling rights of the mover: a right stays only if the
    /// mover has it and the argument keeps it. A right that is lost is never
    /// given back.
    pub fn set_castling_rights(&mut self, a1_castling: bool, h1_castling: bool)
        ensures
            final(self)@ == old(self)@.with_castling(
                old(self)@.left_castling() && a1_castling,
                old(self)@.right_castling() && h1_castling,
            ),
    {
        if self.current_color {
            self.white_castling_rights = (
                self.white_castling_rights.0 && a1_castling,
                self.white_castling_rights.1 && h1_castling,
            );
        } else {
            self.black_castling_rights = (
                self.black_castling_rights.0 && a1_castling,
                self.black_castling_rights.1 && h1_castling,
            );
        }
    }

    /// Restricts the mover's right to castle with the rook of the low
    /// corner: it stays only if the mover has it and the argument keeps it.
    pub fn set_left_castling(&mut self, a1_castling: bool)
        ensures
            final(self)@ == old(self)@.with_castling(
                old(self)@.left_castling() && a1_castling,
                old(self)@.right_castling(),
            ),
    {
        if self.current_color {
            self.white_castling_rights = (
                self.white_castling_rights.0 && a1_castling,
                self.white_castling_rights.1,
            );
        } else {
            self.black_castling_rights = (
                self.black_castling_rights.0 && a1_castling,
                self.black_castling_rights.1,
            );
        }
    }

    /// Restricts the mover's right to castle with the rook of the high
    /// corner: it stays only if the mover has it and the argument keeps it.
    pub fn set_right_castling(&mut self, h1_castling: bool)
        ensures
            final(self)@ == old(self)@.with_castling(
                old(self)@.left_castling(),
                old(self)@.right_castling() && h1_castling,
            ),
    {
        if self.current_color {
            self.white_castling_rights = (
                self.white_castling_rights.0,
                self.white_castling_rights.1 && h1_castling,
            );
        } else {
            self.black_castling_rights = (
                self.black_castling_rights.0,
                self.black_castling_rights.1 && h1_castling,
            );
        }
    }

    /// The mover's right to castle with the rook of the low corner.
    pub fn get_left_castling(&self) -> (right: bool)
        ensures
            right == self@.left_castling(),
    {
        if self.current_color {
            self.white_castling_rights.0
        } else {
            self.black_castling_rights.0
        }
    }

    /// The mover's right to castle with the rook of the high corner.
    pub fn get_right_castling(&self) -> (right: bool)
        ensures
            right == self@.right_castling(),
    {
        if self.current_color {
            self.white_castling_rights.1
        } else {
            self.black_castling_rights.1
        }
    }

    /// True while white is the mover.
    pub fn get_current_color(&self) -> (white: bool)
        ensures
            white == self@.white_to_move,
    {
        self.current_color
    }

    /// Records a fresh en-passant target, open to the next generated ply.
    pub fn set_en_passant_square(&mut self, new_en_passant_square: i64)
        requires
            0 <= new_en_passant_square < 120,
        ensures
            final(self)@ == old(self)@.with_en_passant(new_en_passant_square as int),
    {
        self.en_passant_square = new_en_passant_square as usize;
        self.en_passant_lifetime = 2;
    }

    /// True while the en-passant target can still be captured on.
    pub fn is_en_passant_active(&self) -> (active: bool)
        ensures
            active == self@.en_passant_active(),
    {
        self.en_passant_lifetime > 0
    }

    /// Lets one ply pass in the life of the en-passant target.
    pub fn decrease_en_passant_lifetime(&mut self)
        ensures
            final(self)@ == old(self)@.aged(),
    {
        if self.en_passant_lifetime > 0 {
            self.en_passant_lifetime -= 1;
        }
    }
}

} // verus!
