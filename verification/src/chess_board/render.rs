//! The board as text, for display.
//!
//! The text shows the grid cell by cell, each followed by a blank, with the
//! file letters above and below the playing area and the rank digit in front
//! of every row. Pieces are shown by their letters or by the chess symbols of
//! Unicode.

use super::fen::characters_of;
use super::{
    flip_cell, flipped_cell, is_mover_piece, is_mover_piece_letter, is_opponent_piece,
    is_opponent_piece_letter, rotated_cells, ChessBoard,
};
use vstd::prelude::*;

verus! {

/// The outlined chess symbol of a kind of piece, given by its upper-case
/// letter.
pub open spec fn outlined_symbol(piece: char) -> char {
    if piece == 'K' {
        '\u{2654}'
    } else if piece == 'Q' {
        '\u{2655}'
    } else if piece == 'R' {
        '\u{2656}'
    } else if piece == 'B' {
        '\u{2657}'
    } else if piece == 'N' {
        '\u{2658}'
    } else {
        '\u{2659}'
    }
}

/// The filled chess symbol of a kind of piece, given by its upper-case
/// letter.
pub open spec fn filled_symbol(piece: char) -> char {
    if piece == 'K' {
        '\u{265A}'
    } else if piece == 'Q' {
        '\u{265B}'
    } else if piece == 'R' {
        '\u{265C}'
    } else if piece == 'B' {
        '\u{265D}'
    } else if piece == 'N' {
        '\u{265E}'
    } else {
        '\u{265F}'
    }
}

/// The chess symbol for a cell. Seen by white, upper-case letters are
/// white's pieces and get the outlined symbols, lower-case letters the
/// filled ones; seen by black it is the other way round. Anything but a
/// piece letter is shown as it is.
pub open spec fn chess_symbol(letter: char, perspective_white: bool) -> char {
    if is_mover_piece(letter) {
        if perspective_white {
            outlined_symbol(letter)
        } else {
            filled_symbol(letter)
        }
    } else if is_opponent_piece(letter) {
        if perspective_white {
            filled_symbol(flipped_cell(letter))
        } else {
            outlined_symbol(flipped_cell(letter))
        }
    } else {
        letter
    }
}

/// The line of file letters, seen by white or by black.
pub open spec fn files_line(white: bool) -> Seq<char> {
    if white {
        "   a b c d e f g h \n "@
    } else {
        "   h g f e d c b a \n "@
    }
}

/// The label in front of the row `row` of the grid: the rank digit for the
/// rows of the playing area, a blank for the rows of the border.
pub open spec fn row_label(row: int, white: bool) -> char {
    if row < 2 || row > 9 {
        ' '
    } else if white {
        (58 - row) as char
    } else {
        (47 + row) as char
    }
}

/// How a cell is shown.
pub open spec fn shown_cell(cell: char, white: bool, unicode: bool) -> char {
    if unicode {
        chess_symbol(cell, white)
    } else {
        cell
    }
}

/// What stands before the cell `index`: the line of file letters before the
/// first and after the last row of the playing area, and the row's label
/// before the first cell of a row.
pub open spec fn cell_prefix(index: int, white: bool) -> Seq<char> {
    let files = if index == 20 || index == 100 {
        files_line(white)
    } else {
        Seq::empty()
    };
    let label = if index % 10 == 0 {
        seq![row_label(index / 10, white)]
    } else {
        Seq::empty()
    };
    files + label
}

/// The text for the cell `index`: what stands before it, then the cell and
/// a blank.
pub open spec fn cell_text(cells: Seq<char>, index: int, white: bool, unicode: bool) -> Seq<char> {
    cell_prefix(index, white) + seq![shown_cell(cells[index], white, unicode), ' ']
}

/// The text for the first `count` cells of the grid.
pub open spec fn cells_text(cells: Seq<char>, count: int, white: bool, unicode: bool) -> Seq<char>
    decreases count,
{
    if count <= 0 {
        Seq::empty()
    } else {
        cells_text(cells, count - 1, white, unicode) + cell_text(cells, count - 1, white, unicode)
    }
}

/// The text of a position's board as white or as black sees it.
pub open spec fn board_text(cells: Seq<char>, white_to_move: bool, white: bool, unicode: bool) -> Seq<char> {
    let seen = if white == white_to_move {
        cells
    } else {
        rotated_cells(cells)
    };
    cells_text(seen, seen.len() as int, white, unicode)
}

impl ChessBoard {
    /// The chess symbol for a cell, as `perspective_color` sees it: white if
    /// true, black otherwise.
    pub fn match_letter_to_unicode_chess_symbol(&self, letter: char, perspective_color: bool) -> (symbol: char)
        ensures
            symbol == chess_symbol(letter, perspective_color),
    {
        let outlined: bool = if is_mover_piece_letter(letter) {
            perspective_color
        } else if is_opponent_piece_letter(letter) {
            !perspective_color
        } else {
            return letter;
        };
        let piece: char = if is_mover_piece_letter(letter) {
            letter
        } else {
            flip_cell(letter)
        };
        if outlined {
            if piece == 'K' {
                '\u{2654}'
            } else if piece == 'Q' {
                '\u{2655}'
            } else if piece == 'R' {
                '\u{2656}'
            } else if piece == 'B' {
                '\u{2657}'
            } else if piece == 'N' {
                '\u{2658}'
            } else {
                '\u{2659}'
            }
        } else {
            if piece == 'K' {
                '\u{265A}'
            } else if piece == 'Q' {
                '\u{265B}'
            } else if piece == 'R' {
                '\u{265C}'
            } else if piece == 'B' {
                '\u{265D}'
            } else if piece == 'N' {
                '\u{265E}'
            } else {
                '\u{265F}'
            }
        }
    }

    /// Appends what stands before the cell `index`.
    fn append_cell_prefix(text: &mut Vec<char>, files: &Vec<char>, index: usize, white: bool)
        requires
            index < 120,
            files@ == files_line(white),
        ensures
            final(text)@ == old(text)@ + cell_prefix(index as int, white),
    {
        if index == 20 || index == 100 {
            let mut line = files.clone();
            text.append(&mut line);
        }
        if index % 10 == 0 {
            let row: u8 = (index / 10) as u8;
            let label: char = if row < 2 || row > 9 {
                ' '
            } else if white {
                (58 - row) as char
            } else {
                (47 + row) as char
            };
            text.push(label);
        }
        assert(text@ =~= old(text)@ + cell_prefix(index as int, white));
    }

    /// The text of the board as white sees it if `white`, as black sees it
    /// otherwise.
    pub fn print_board(&self, white: bool, unicode: bool) -> (text: Vec<char>)
        requires
            self@.cells.len() <= 120,
        ensures
            text@ == board_text(self@.cells, self@.white_to_move, white, unicode),
    {
        let files: Vec<char> = if white {
            characters_of("   a b c d e f g h \n ")
        } else {
            characters_of("   h g f e d c b a \n ")
        };
        let print_vector: Vec<char> = if white == self.current_color {
            self.board_vector.clone()
        } else {
            self.return_rotated_board_vector_with_changed_letter_case()
        };
        let ghost seen = print_vector@;
        assert(seen =~= if white == self@.white_to_move {
            self@.cells
        } else {
            rotated_cells(self@.cells)
        });
        let mut text: Vec<char> = Vec::new();
        let mut index: usize = 0;
        while index < print_vector.len()
            invariant
                index <= print_vector@.len(),
                print_vector@.len() <= 120,
                seen == print_vector@,
                files@ == files_line(white),
                text@ == cells_text(seen, index as int, white, unicode),
            decreases print_vector@.len() - index,
        {
            let ghost earlier = text@;
            Self::append_cell_prefix(&mut text, &files, index, white);
            let cell = print_vector[index];
            let shown: char = if unicode {
                self.match_letter_to_unicode_chess_symbol(cell, white)
            } else {
                cell
            };
            text.push(shown);
            text.push(' ');
            assert(text@ =~= earlier + cell_text(seen, index as int, white, unicode));
            index = index + 1;
        }
        text
    }

    /// The text of the board as the side that is to move sees it.
    pub fn print_board_from_current_color_perspective(&self, unicode: bool) -> (text: Vec<char>)
        requires
            self@.cells.len() <= 120,
        ensures
            text@ == board_text(self@.cells, self@.white_to_move, self@.white_to_move, unicode),
    {
        self.print_board(self.current_color, unicode)
    }

    /// The text of the board as white sees it.
    pub fn print_board_from_white_perspective(&self, unicode: bool) -> (text: Vec<char>)
        requires
            self@.cells.len() <= 120,
        ensures
            text@ == board_text(self@.cells, self@.white_to_move, true, unicode),
    {
        self.print_board(true, unicode)
    }

    /// The text of the board as black sees it.
    pub fn print_board_from_black_perspective(&self, unicode: bool) -> (text: Vec<char>)
        requires
            self@.cells.len() <= 120,
        ensures
            text@ == board_text(self@.cells, self@.white_to_move, false, unicode),
    {
        self.print_board(false, unicode)
    }

    /// The line that shows the last move: its notation, or nothing if no
    /// move has been made.
    pub fn print_last_move(&self) -> (line: Option<String>)
        ensures
            self@.last_move.len() == 0 ==> line is None,
            self@.last_move.len() > 0 ==> line is Some && line->0@ == self@.last_move,
    {
        if self.last_move.as_str().unicode_len() == 0 {
            None
        } else {
            Some(self.last_move.clone())
        }
    }

    /// The line that shows the last move and who made it: the side that is
    /// not to move. Nothing if no move has been made.
    pub fn print_last_move_with_moving_side_info(&self) -> (line: Option<String>)
        ensures
            self@.last_move.len() == 0 ==> line is None,
            self@.last_move.len() > 0 ==> line is Some && line->0@ == moving_side_text(
                self@.white_to_move,
            ) + self@.last_move,
    {
        if self.last_move.as_str().unicode_len() == 0 {
            None
        } else {
            let mut line = if self.current_color {
                String::from_str("Black moves: ")
            } else {
                String::from_str("White moves: ")
            };
            line.append(self.last_move.as_str());
            Some(line)
        }
    }
}

/// The words that name the side that has made the last move: black if white
/// is to move, white otherwise.
pub open spec fn moving_side_text(white_to_move: bool) -> Seq<char> {
    if white_to_move {
        "Black moves: "@
    } else {
        "White moves: "@
    }
}

} // verus!
