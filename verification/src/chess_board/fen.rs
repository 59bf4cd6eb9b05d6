//! Positions from their description in text.
//!
//! A description has at least four fields, separated by single blanks: the
//! piece placement, rank by rank from the eighth to the first with `/`
//! between the ranks and a digit for a run of empty squares; the colour to
//! move, `w` or `b`; the castling rights, letters of `KQkq` or `-`; and the
//! en-passant target, a square or `-`. Further fields are not looked at.

use super::notation::{is_square_name, square_index};
use super::{
    cell_fits, cells_well_formed, is_mover_piece, is_mover_piece_letter, is_opponent_piece,
    is_opponent_piece_letter, lemma_rotated_well_formed, rotated_cells, ChessBoard, Position,
};
use vstd::prelude::*;

verus! {

/// The pieces of a text between the occurrences of a separator. A text
/// without separator is one piece; two separators in a row enclose an empty
/// piece.
pub open spec fn split(text: Seq<char>, separator: char) -> Seq<Seq<char>>
    decreases text.len(),
{
    if text.len() == 0 {
        seq![Seq::empty()]
    } else {
        let before = split(text.drop_last(), separator);
        if text.last() == separator {
            before.push(Seq::empty())
        } else {
            before.drop_last().push(before.last().push(text.last()))
        }
    }
}

/// The texts that a list of character vectors holds.
pub open spec fn texts(list: Seq<Vec<char>>) -> Seq<Seq<char>> {
    list.map_values(|piece: Vec<char>| piece@)
}

/// A run of `count` empty squares.
pub open spec fn empty_run(count: int) -> Seq<char> {
    Seq::new(count as nat, |i: int| '.')
}

/// A piece letter of either colour.
pub open spec fn is_piece(c: char) -> bool {
    is_mover_piece(c) || is_opponent_piece(c)
}

/// A digit that stands for a run of empty squares.
pub open spec fn is_run_digit(c: char) -> bool {
    '1' <= c && c <= '8'
}

/// The squares that the description of one rank stands for: a piece letter
/// is a square with that piece, a digit a run of empty squares.
pub open spec fn expanded_rank(rank: Seq<char>) -> Seq<char>
    decreases rank.len(),
{
    if rank.len() == 0 {
        Seq::empty()
    } else {
        let before = expanded_rank(rank.drop_last());
        let c = rank.last();
        if is_piece(c) {
            before.push(c)
        } else if is_run_digit(c) {
            before + empty_run(c as int - 48)
        } else {
            before
        }
    }
}

/// A row of the grid for one rank: a blank, the squares, a line break.
pub open spec fn rank_row(rank: Seq<char>) -> Seq<char> {
    seq![' '] + expanded_rank(rank) + seq!['\n']
}

/// The rows of the grid for a list of ranks, one after the other.
pub open spec fn rank_rows(ranks: Seq<Seq<char>>) -> Seq<char>
    decreases ranks.len(),
{
    if ranks.len() == 0 {
        Seq::empty()
    } else {
        rank_rows(ranks.drop_last()) + rank_row(ranks.last())
    }
}

/// A row of the border: nine blanks and a line break.
pub open spec fn filler_row() -> Seq<char> {
    seq![' ', ' ', ' ', ' ', ' ', ' ', ' ', ' ', ' ', '\n']
}

/// The grid that a piece placement stands for, seen by white.
pub open spec fn placement_cells(placement: Seq<char>) -> Seq<char> {
    filler_row() + filler_row() + rank_rows(split(placement, '/')) + filler_row() + filler_row()
}

/// The description of a rank holds piece letters and digits from 1 to 8
/// only, and stands for exactly eight squares.
pub open spec fn valid_rank(rank: Seq<char>) -> bool {
    &&& forall|i: int| 0 <= i < rank.len() ==> is_piece(#[trigger] rank[i]) || is_run_digit(rank[i])
    &&& expanded_rank(rank).len() == 8
}

/// The placement describes exactly eight valid ranks.
pub open spec fn valid_placement(placement: Seq<char>) -> bool {
    let ranks = split(placement, '/');
    &&& ranks.len() == 8
    &&& forall|i: int| 0 <= i < 8 ==> valid_rank(#[trigger] ranks[i])
}

/// The colour field is `w` or `b`.
pub open spec fn valid_color(field: Seq<char>) -> bool {
    field == seq!['w'] || field == seq!['b']
}

/// The castling field is `-` or a text of letters of `KQkq`.
pub open spec fn valid_castling(field: Seq<char>) -> bool {
    ||| field == seq!['-']
    ||| field.len() > 0 && forall|i: int|
        0 <= i < field.len() ==> {
            let c = #[trigger] field[i];
            c == 'K' || c == 'Q' || c == 'k' || c == 'q'
        }
}

/// The en-passant field is `-` or the name of a square.
pub open spec fn valid_en_passant(field: Seq<char>) -> bool {
    field == seq!['-'] || is_square_name(field)
}

/// The text is the description of a position.
pub open spec fn valid_fen(fen: Seq<char>) -> bool {
    let fields = split(fen, ' ');
    &&& fields.len() >= 4
    &&& valid_placement(fields[0])
    &&& valid_color(fields[1])
    &&& valid_castling(fields[2])
    &&& valid_en_passant(fields[3])
}

/// The position that a valid description stands for. It has no last move,
/// and its score is 0.
pub open spec fn fen_position(fen: Seq<char>) -> Position {
    let fields = split(fen, ' ');
    let white = fields[1] == seq!['w'];
    let seen_by_white = placement_cells(fields[0]);
    Position {
        cells: if white {
            seen_by_white
        } else {
            rotated_cells(seen_by_white)
        },
        white_to_move: white,
        white_castling: (fields[2].contains('Q'), fields[2].contains('K')),
        black_castling: (fields[2].contains('k'), fields[2].contains('q')),
        en_passant_square: if fields[3] == seq!['-'] {
            0
        } else {
            square_index(fields[3], white)
        },
        en_passant_lifetime: if fields[3] == seq!['-'] {
            0
        } else {
            2
        },
        last_move: Seq::empty(),
        score: 0,
    }
}

/// The squares that a rank of piece letters and digits stands for are empty
/// or hold a piece.
pub proof fn lemma_expanded_rank_squares(rank: Seq<char>)
    ensures
        forall|i: int|
            0 <= i < expanded_rank(rank).len() ==> {
                let c = #[trigger] expanded_rank(rank)[i];
                c == '.' || is_piece(c)
            },
    decreases rank.len(),
{
    if rank.len() > 0 {
        lemma_expanded_rank_squares(rank.drop_last());
        let before = expanded_rank(rank.drop_last());
        let whole = expanded_rank(rank);
        assert forall|i: int| 0 <= i < whole.len() implies {
            let c = #[trigger] whole[i];
            c == '.' || is_piece(c)
        } by {
            if i < before.len() {
                assert(whole[i] == before[i]);
            }
        }
    }
}

/// The rows of ranks of eight squares each are ten cells long, and the
/// cell `column` of the row `row` is the cell `column` of that rank's row.
pub proof fn lemma_rank_rows_cells(ranks: Seq<Seq<char>>, row: int, column: int)
    requires
        forall|i: int| 0 <= i < ranks.len() ==> expanded_rank(#[trigger] ranks[i]).len() == 8,
        0 <= row < ranks.len(),
        0 <= column < 10,
    ensures
        rank_rows(ranks).len() == 10 * ranks.len(),
        rank_rows(ranks)[10 * row + column] == rank_row(ranks[row])[column],
    decreases ranks.len(),
{
    let earlier = ranks.drop_last();
    lemma_rank_rows_length(earlier);
    if row < ranks.len() - 1 {
        lemma_rank_rows_cells(earlier, row, column);
    }
}

/// The rows of ranks of eight squares each are ten cells long.
pub proof fn lemma_rank_rows_length(ranks: Seq<Seq<char>>)
    requires
        forall|i: int| 0 <= i < ranks.len() ==> expanded_rank(#[trigger] ranks[i]).len() == 8,
    ensures
        rank_rows(ranks).len() == 10 * ranks.len(),
    decreases ranks.len(),
{
    if ranks.len() > 0 {
        lemma_rank_rows_length(ranks.drop_last());
    }
}

/// The grid of a valid placement is well formed.
pub proof fn lemma_valid_placement_well_formed(placement: Seq<char>)
    requires
        valid_placement(placement),
    ensures
        cells_well_formed(placement_cells(placement)),
{
    let ranks = split(placement, '/');
    let cells = placement_cells(placement);
    lemma_rank_rows_length(ranks);
    assert forall|i: int| 0 <= i < 120 implies #[trigger] cell_fits(cells[i], i) by {
        if 20 <= i < 100 {
            let row = (i - 20) / 10;
            let column = i % 10;
            lemma_rank_rows_cells(ranks, row, column);
            lemma_expanded_rank_squares(ranks[row]);
            assert(cells[i] == rank_rows(ranks)[i - 20]);
            assert(valid_rank(ranks[row]));
            if 1 <= column <= 8 {
                assert(rank_row(ranks[row])[column] == expanded_rank(ranks[row])[column - 1]);
            }
        }
    }
}

/// The grid of the position that a valid description stands for is well
/// formed.
pub proof fn lemma_valid_fen_well_formed(fen: Seq<char>)
    requires
        valid_fen(fen),
    ensures
        cells_well_formed(fen_position(fen).cells),
{
    let fields = split(fen, ' ');
    lemma_valid_placement_well_formed(fields[0]);
    lemma_rotated_well_formed(placement_cells(fields[0]));
}

/// The characters of a text.
pub fn characters_of(text: &str) -> (characters: Vec<char>)
    ensures
        characters@ == text@,
{
    let length: usize = text.unicode_len();
    let mut characters: Vec<char> = Vec::with_capacity(length);
    let mut taken: usize = 0;
    while taken < length
        invariant
            length == text@.len(),
            taken <= length,
            characters@ == text@.subrange(0, taken as int),
        decreases length - taken,
    {
        characters.push(text.get_char(taken));
        taken = taken + 1;
        assert(characters@ =~= text@.subrange(0, taken as int));
    }
    assert(characters@ =~= text@);
    characters
}

/// Splits a text at every occurrence of the separator.
pub fn split_text(text: &Vec<char>, separator: char) -> (pieces: Vec<Vec<char>>)
    ensures
        texts(pieces@) == split(text@, separator),
{
    let mut pieces: Vec<Vec<char>> = Vec::new();
    let mut piece: Vec<char> = Vec::new();
    let mut taken: usize = 0;
    assert(texts(pieces@).push(piece@) =~= split(text@.subrange(0, 0), separator));
    while taken < text.len()
        invariant
            taken <= text@.len(),
            texts(pieces@).push(piece@) == split(text@.subrange(0, taken as int), separator),
        decreases text@.len() - taken,
    {
        let c = text[taken];
        proof {
            let longer = text@.subrange(0, taken + 1);
            assert(longer.drop_last() =~= text@.subrange(0, taken as int));
            assert(longer.last() == c);
            let before = texts(pieces@).push(piece@);
            assert(before.drop_last() =~= texts(pieces@));
        }
        if c == separator {
            let ghost earlier = texts(pieces@).push(piece@);
            pieces.push(piece);
            piece = Vec::new();
            assert(texts(pieces@) =~= earlier);
        } else {
            piece.push(c);
        }
        taken = taken + 1;
    }
    assert(text@.subrange(0, taken as int) =~= text@);
    let ghost earlier = texts(pieces@).push(piece@);
    pieces.push(piece);
    assert(texts(pieces@) =~= earlier);
    pieces
}

/// Tells whether `c` occurs in the text.
pub fn text_contains(text: &Vec<char>, c: char) -> (found: bool)
    ensures
        found == text@.contains(c),
{
    let mut taken: usize = 0;
    while taken < text.len()
        invariant
            taken <= text@.len(),
            forall|i: int| 0 <= i < taken ==> text@[i] != c,
        decreases text@.len() - taken,
    {
        if text[taken] == c {
            return true;
        }
        taken = taken + 1;
    }
    false
}

/// Tells whether the text is the one character `c`.
pub fn text_is(text: &Vec<char>, c: char) -> (same: bool)
    ensures
        same == (text@ == seq![c]),
{
    let same = text.len() == 1 && text[0] == c;
    proof {
        if same {
            assert(text@ =~= seq![c]);
        }
    }
    same
}

/// Tells whether `c` is a piece letter of either colour.
pub fn is_piece_letter(c: char) -> (r: bool)
    ensures
        r == is_piece(c),
{
    is_mover_piece_letter(c) || is_opponent_piece_letter(c)
}

/// The beginning of the description of a rank stands for no more squares
/// than the whole.
pub proof fn lemma_expanded_rank_grows(rank: Seq<char>, count: int)
    requires
        0 <= count <= rank.len(),
    ensures
        expanded_rank(rank.subrange(0, count)).len() <= expanded_rank(rank).len(),
    decreases rank.len() - count,
{
    if count < rank.len() {
        let longer = rank.subrange(0, count + 1);
        assert(longer.drop_last() =~= rank.subrange(0, count));
        lemma_expanded_rank_grows(rank, count + 1);
    } else {
        assert(rank.subrange(0, count) =~= rank);
    }
}

/// Tells whether the description of a rank holds piece letters and digits
/// from 1 to 8 only and stands for exactly eight squares.
pub fn is_valid_rank(rank: &Vec<char>) -> (valid: bool)
    ensures
        valid == valid_rank(rank@),
{
    let mut width: usize = 0;
    let mut taken: usize = 0;
    assert(rank@.subrange(0, 0) =~= Seq::<char>::empty());
    while taken < rank.len()
        invariant
            taken <= rank@.len(),
            width <= 8,
            width == expanded_rank(rank@.subrange(0, taken as int)).len(),
            forall|i: int| 0 <= i < taken ==> is_piece(#[trigger] rank@[i]) || is_run_digit(rank@[i]),
        decreases rank@.len() - taken,
    {
        let c = rank[taken];
        proof {
            let longer = rank@.subrange(0, taken + 1);
            assert(longer.drop_last() =~= rank@.subrange(0, taken as int));
            assert(longer.last() == c);
            lemma_expanded_rank_grows(rank@, taken + 1);
        }
        if is_piece_letter(c) {
            width = width + 1;
        } else if c >= '1' && c <= '8' {
            let run: u8 = c as u8 - 48;
            width = width + run as usize;
        } else {
            return false;
        }
        if width > 8 {
            return false;
        }
        taken = taken + 1;
    }
    assert(rank@.subrange(0, taken as int) =~= rank@);
    width == 8
}

/// Tells whether the placement describes exactly eight valid ranks.
pub fn is_valid_placement(placement: &Vec<char>) -> (valid: bool)
    ensures
        valid == valid_placement(placement@),
{
    let ranks = split_text(placement, '/');
    if ranks.len() != 8 {
        return false;
    }
    let mut taken: usize = 0;
    while taken < 8
        invariant
            taken <= 8,
            ranks@.len() == 8,
            texts(ranks@) == split(placement@, '/'),
            forall|i: int| 0 <= i < taken ==> valid_rank(#[trigger] texts(ranks@)[i]),
        decreases 8 - taken,
    {
        assert(texts(ranks@)[taken as int] == ranks@[taken as int]@);
        if !is_valid_rank(&ranks[taken]) {
            return false;
        }
        taken = taken + 1;
    }
    true
}

/// Tells whether the castling field is `-` or a text of letters of `KQkq`.
pub fn is_valid_castling(field: &Vec<char>) -> (valid: bool)
    ensures
        valid == valid_castling(field@),
{
    if text_is(field, '-') {
        return true;
    }
    if field.len() == 0 {
        return false;
    }
    let mut taken: usize = 0;
    while taken < field.len()
        invariant
            taken <= field@.len(),
            field@.len() > 0,
            field@ != seq!['-'],
            forall|i: int|
                0 <= i < taken ==> {
                    let c = #[trigger] field@[i];
                    c == 'K' || c == 'Q' || c == 'k' || c == 'q'
                },
        decreases field@.len() - taken,
    {
        let c = field[taken];
        if !(c == 'K' || c == 'Q' || c == 'k' || c == 'q') {
            return false;
        }
        taken = taken + 1;
    }
    true
}

/// Tells whether the text is the name of a square.
pub fn is_square_text(field: &Vec<char>) -> (valid: bool)
    ensures
        valid == is_square_name(field@),
{
    field.len() == 2 && field[0] >= 'a' && field[0] <= 'h' && field[1] >= '1' && field[1] <= '8'
}

/// Tells whether the text is the description of a position.
pub fn is_valid_fen(fen: &str) -> (valid: bool)
    ensures
        valid == valid_fen(fen@),
{
    let characters = characters_of(fen);
    let fields = split_text(&characters, ' ');
    if fields.len() < 4 {
        return false;
    }
    proof {
        assert(texts(fields@)[0] == fields@[0]@);
        assert(texts(fields@)[1] == fields@[1]@);
        assert(texts(fields@)[2] == fields@[2]@);
        assert(texts(fields@)[3] == fields@[3]@);
    }
    is_valid_placement(&fields[0]) && (text_is(&fields[1], 'w') || text_is(&fields[1], 'b'))
        && is_valid_castling(&fields[2]) && (text_is(&fields[3], '-') || is_square_text(
        &fields[3],
    ))
}

impl ChessBoard {
    /// Sets the board up as the description says: the grid, the colour to
    /// move, the castling rights and the en-passant target are those of the
    /// description, there is no last move and the score is 0.
    pub fn build_board_from_fen_string(&mut self, fen_string: String)
        requires
            valid_fen(fen_string@),
        ensures
            final(self)@ == fen_position(fen_string@),
    {
        let characters = characters_of(fen_string.as_str());
        let fields = split_text(&characters, ' ');
        proof {
            assert(texts(fields@)[0] == fields@[0]@);
            assert(texts(fields@)[1] == fields@[1]@);
            assert(texts(fields@)[2] == fields@[2]@);
            assert(texts(fields@)[3] == fields@[3]@);
        }
        let ranks = split_text(&fields[0], '/');
        self.board_vector.clear();
        Self::append_filler_row(&mut self.board_vector);
        Self::append_filler_row(&mut self.board_vector);
        let ghost border = self.board_vector@;
        let mut taken: usize = 0;
        assert(texts(ranks@).subrange(0, 0) =~= Seq::<Seq<char>>::empty());
        assert(self.board_vector@ =~= border + rank_rows(texts(ranks@).subrange(0, 0)));
        while taken < ranks.len()
            invariant
                taken <= ranks@.len(),
                self.board_vector@ == border + rank_rows(texts(ranks@).subrange(0, taken as int)),
                self.current_color == old(self).current_color,
                self.white_castling_rights == old(self).white_castling_rights,
                self.black_castling_rights == old(self).black_castling_rights,
                self.en_passant_square == old(self).en_passant_square,
                self.en_passant_lifetime == old(self).en_passant_lifetime,
            decreases ranks@.len() - taken,
        {
            let mut board_segment = Self::build_board_segment(&ranks[taken]);
            proof {
                let longer = texts(ranks@).subrange(0, taken + 1);
                assert(longer.drop_last() =~= texts(ranks@).subrange(0, taken as int));
                assert(longer.last() == ranks@[taken as int]@);
                let earlier = rank_rows(texts(ranks@).subrange(0, taken as int));
                assert((border + earlier) + board_segment@ =~= border + (earlier
                    + board_segment@));
            }
            self.board_vector.append(&mut board_segment);
            taken = taken + 1;
        }
        assert(texts(ranks@).subrange(0, taken as int) =~= texts(ranks@));
        Self::append_filler_row(&mut self.board_vector);
        Self::append_filler_row(&mut self.board_vector);
        assert(self.board_vector@ =~= placement_cells(fields@[0]@));
        self.set_current_color_from_fen_field(&fields[1]);
        self.set_castling_from_fen_field(&fields[2]);
        self.set_en_passant_square_from_fen_field(&fields[3]);
        self.last_move = String::new();
        self.score = 0;
    }

    /// Appends a row of the border to the grid.
    fn append_filler_row(cells: &mut Vec<char>)
        ensures
            final(cells)@ == old(cells)@ + filler_row(),
    {
        let mut taken: usize = 0;
        while taken < 9
            invariant
                taken <= 9,
                cells@.len() == old(cells)@.len() + taken,
                forall|i: int| 0 <= i < old(cells)@.len() ==> cells@[i] == old(cells)@[i],
                forall|i: int| old(cells)@.len() <= i < cells@.len() ==> cells@[i] == ' ',
            decreases 9 - taken,
        {
            cells.push(' ');
            taken = taken + 1;
        }
        cells.push('\n');
        assert(cells@ =~= old(cells)@ + filler_row());
    }

    /// The row of the grid that the description of one rank stands for.
    fn build_board_segment(partial_fen_string: &Vec<char>) -> (board_segment: Vec<char>)
        ensures
            board_segment@ == rank_row(partial_fen_string@),
    {
        let mut board_segment: Vec<char> = Vec::new();
        board_segment.push(' ');
        let mut taken: usize = 0;
        assert(partial_fen_string@.subrange(0, 0) =~= Seq::<char>::empty());
        assert(board_segment@ =~= seq![' '] + expanded_rank(partial_fen_string@.subrange(0, 0)));
        while taken < partial_fen_string.len()
            invariant
                taken <= partial_fen_string@.len(),
                board_segment@ == seq![' '] + expanded_rank(
                    partial_fen_string@.subrange(0, taken as int),
                ),
            decreases partial_fen_string@.len() - taken,
        {
            let square = partial_fen_string[taken];
            let ghost earlier = expanded_rank(partial_fen_string@.subrange(0, taken as int));
            proof {
                let longer = partial_fen_string@.subrange(0, taken + 1);
                assert(longer.drop_last() =~= partial_fen_string@.subrange(0, taken as int));
                assert(longer.last() == square);
            }
            if is_piece_letter(square) {
                board_segment.push(square);
                assert(board_segment@ =~= seq![' '] + earlier.push(square));
            } else if square >= '1' && square <= '8' {
                let run: u8 = square as u8 - 48;
                let mut added: u8 = 0;
                while added < run
                    invariant
                        added <= run,
                        board_segment@ == seq![' '] + (earlier + empty_run(added as int)),
                    decreases run - added,
                {
                    board_segment.push('.');
                    added = added + 1;
                    assert(board_segment@ =~= seq![' '] + (earlier + empty_run(added as int)));
                }
            }
            taken = taken + 1;
        }
        assert(partial_fen_string@.subrange(0, taken as int) =~= partial_fen_string@);
        board_segment.push('\n');
        board_segment
    }

    /// Takes the colour to move from its field. The grid, built as white
    /// sees it, is rotated if black is to move.
    fn set_current_color_from_fen_field(&mut self, current_color_fen_field: &Vec<char>)
        requires
            valid_color(current_color_fen_field@),
        ensures
            final(self)@ == (Position {
                white_to_move: current_color_fen_field@ == seq!['w'],
                cells: if current_color_fen_field@ == seq!['w'] {
                    old(self)@.cells
                } else {
                    rotated_cells(old(self)@.cells)
                },
                ..old(self)@
            }),
    {
        if text_is(current_color_fen_field, 'w') {
            self.current_color = true;
        } else {
            self.current_color = false;
            self.board_vector = self.return_rotated_board_vector_with_changed_letter_case();
        }
    }

    /// Takes the castling rights from their field: a right is there exactly
    /// if its letter occurs.
    fn set_castling_from_fen_field(&mut self, castling_fen_field: &Vec<char>)
        ensures
            final(self)@ == (Position {
                white_castling: (
                    castling_fen_field@.contains('Q'),
                    castling_fen_field@.contains('K'),
                ),
                black_castling: (
                    castling_fen_field@.contains('k'),
                    castling_fen_field@.contains('q'),
                ),
                ..old(self)@
            }),
    {
        self.white_castling_rights = (
            text_contains(castling_fen_field, 'Q'),
            text_contains(castling_fen_field, 'K'),
        );
        self.black_castling_rights = (
            text_contains(castling_fen_field, 'k'),
            text_contains(castling_fen_field, 'q'),
        );
    }

    /// Takes the en-passant target from its field: none for `-`, else the
    /// named square, open to the next generated ply.
    fn set_en_passant_square_from_fen_field(&mut self, en_passant_fen_field: &Vec<char>)
        requires
            valid_en_passant(en_passant_fen_field@),
        ensures
            final(self)@ == (Position {
                en_passant_square: if en_passant_fen_field@ == seq!['-'] {
                    0
                } else {
                    square_index(en_passant_fen_field@, old(self)@.white_to_move)
                },
                en_passant_lifetime: if en_passant_fen_field@ == seq!['-'] {
                    0
                } else {
                    2
                },
                ..old(self)@
            }),
    {
        if text_is(en_passant_fen_field, '-') {
            self.en_passant_square = 0;
            self.en_passant_lifetime = 0;
        } else {
            let en_passant_square_index = self.square_index_of(
                en_passant_fen_field[0],
                en_passant_fen_field[1],
            );
            assert(en_passant_fen_field@ =~= seq![en_passant_fen_field@[0], en_passant_fen_field@[1]]);
            self.set_en_passant_square(en_passant_square_index as i64);
        }
    }
}

} // verus!
