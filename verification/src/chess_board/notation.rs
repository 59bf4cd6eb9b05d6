//! Algebraic names of squares and moves.
//!
//! The grid is stored from the mover's point of view, so the name of a cell
//! depends on the colour that is to move: for white the cell 91 is a1, for
//! black it is h8.

use super::{is_playing_square, ChessBoard, Position};
use vstd::prelude::*;

verus! {

/// The file letter of the cells in `column` (1 to 8), seen by white or black.
pub open spec fn file_letter(column: int, white: bool) -> char {
    if white {
        (96 + column) as char
    } else {
        (105 - column) as char
    }
}

/// The rank digit of the cells in `row` (2 to 9), seen by white or black.
pub open spec fn rank_digit(row: int, white: bool) -> char {
    if white {
        (58 - row) as char
    } else {
        (47 + row) as char
    }
}

/// The algebraic name of the cell `index`.
pub open spec fn square_name(index: int, white: bool) -> Seq<char> {
    seq![file_letter(index % 10, white), rank_digit(index / 10, white)]
}

/// The text is a file letter from a to h followed by a rank digit from 1 to 8.
pub open spec fn is_square_name(name: Seq<char>) -> bool {
    &&& name.len() == 2
    &&& 'a' <= name[0] && name[0] <= 'h'
    &&& '1' <= name[1] && name[1] <= '8'
}

/// The cell that an algebraic name stands for.
pub open spec fn square_index(name: Seq<char>, white: bool) -> int {
    if white {
        (56 - name[1] as int + 2) * 10 + (name[0] as int - 96)
    } else {
        (name[1] as int - 47) * 10 + (105 - name[0] as int)
    }
}

/// The notation of a move: the name of its origin, then of its destination.
pub open spec fn move_name(from: int, to: int, white: bool) -> Seq<char> {
    square_name(from, white) + square_name(to, white)
}

/// Naming a cell of the playing area and reading the name back gives the
/// cell, and the name is a proper square name.
pub proof fn lemma_square_name_round_trip(index: int, white: bool)
    requires
        is_playing_square(index),
    ensures
        is_square_name(square_name(index, white)),
        square_index(square_name(index, white), white) == index,
{
}

/// Reading a square name and naming the cell gives the name back, and the
/// cell lies in the playing area.
pub proof fn lemma_square_index_round_trip(name: Seq<char>, white: bool)
    requires
        is_square_name(name),
    ensures
        is_playing_square(square_index(name, white)),
        square_name(square_index(name, white), white) == name,
{
    assert(square_name(square_index(name, white), white) =~= name);
}

/// The two colours name the same cell by squares that mirror each other.
pub proof fn lemma_square_name_mirrored(index: int, white: bool)
    requires
        is_playing_square(index),
    ensures
        square_name(119 - index, !white) == square_name(index, white),
{
    assert(square_name(119 - index, !white) =~= square_name(index, white));
}

/// The one-letter text of a file letter, a rank digit or a promotion letter.
pub fn symbol_text(symbol: char) -> (text: &'static str)
    requires
        ('a' <= symbol && symbol <= 'h') || ('1' <= symbol && symbol <= '8') || symbol == 'r'
            || symbol == 'n' || symbol == 'q',
    ensures
        text@ == seq![symbol],
{
    proof {
        reveal_strlit("a");
        reveal_strlit("b");
        reveal_strlit("c");
        reveal_strlit("d");
        reveal_strlit("e");
        reveal_strlit("f");
        reveal_strlit("g");
        reveal_strlit("h");
        reveal_strlit("1");
        reveal_strlit("2");
        reveal_strlit("3");
        reveal_strlit("4");
        reveal_strlit("5");
        reveal_strlit("6");
        reveal_strlit("7");
        reveal_strlit("8");
        reveal_strlit("r");
        reveal_strlit("n");
        reveal_strlit("q");
    }
    let text = if symbol == 'a' {
        "a"
    } else if symbol == 'b' {
        "b"
    } else if symbol == 'c' {
        "c"
    } else if symbol == 'd' {
        "d"
    } else if symbol == 'e' {
        "e"
    } else if symbol == 'f' {
        "f"
    } else if symbol == 'g' {
        "g"
    } else if symbol == 'h' {
        "h"
    } else if symbol == '1' {
        "1"
    } else if symbol == '2' {
        "2"
    } else if symbol == '3' {
        "3"
    } else if symbol == '4' {
        "4"
    } else if symbol == '5' {
        "5"
    } else if symbol == '6' {
        "6"
    } else if symbol == '7' {
        "7"
    } else if symbol == '8' {
        "8"
    } else if symbol == 'r' {
        "r"
    } else if symbol == 'n' {
        "n"
    } else {
        "q"
    };
    assert(text@ =~= seq![symbol]);
    text
}

impl ChessBoard {
    /// The cell that the algebraic name `location` stands for, for the colour
    /// that is to move.
    pub fn get_piece_index_from_chess_notation(&self, location: String) -> (index: usize)
        requires
            is_square_name(location@),
        ensures
            index == square_index(location@, self@.white_to_move),
            is_playing_square(index as int),
    {
        let text = location.as_str();
        let file = text.get_char(0);
        let rank = text.get_char(1);
        assert(location@ =~= seq![file, rank]);
        self.square_index_of(file, rank)
    }

    /// The cell on the file `file` and the rank `rank`, for the colour that
    /// is to move.
    pub fn square_index_of(&self, file: char, rank: char) -> (index: usize)
        requires
            is_square_name(seq![file, rank]),
        ensures
            index == square_index(seq![file, rank], self@.white_to_move),
            is_playing_square(index as int),
    {
        let file_code: u8 = file as u8;
        let rank_code: u8 = rank as u8;
        proof {
            lemma_square_index_round_trip(seq![file, rank], self@.white_to_move);
        }
        if self.current_color {
            let row: usize = (58 - rank_code) as usize;
            let column: usize = (file_code - 96) as usize;
            row * 10 + column
        } else {
            let row: usize = (rank_code - 47) as usize;
            let column: usize = (105 - file_code) as usize;
            row * 10 + column
        }
    }

    /// Appends the algebraic name of the cell `location`, for the colour that
    /// is to move, to a text.
    fn append_square_name(&self, text: &mut String, location: usize)
        requires
            is_playing_square(location as int),
        ensures
            final(text)@ == old(text)@ + square_name(location as int, self@.white_to_move),
    {
        let row: u8 = (location / 10) as u8;
        let column: u8 = (location % 10) as u8;
        let file: char = if self.current_color {
            (96 + column) as char
        } else {
            (105 - column) as char
        };
        let rank: char = if self.current_color {
            (58 - row) as char
        } else {
            (47 + row) as char
        };
        text.append(symbol_text(file));
        text.append(symbol_text(rank));
        assert(text@ =~= old(text)@ + square_name(location as int, self@.white_to_move));
    }

    /// The algebraic name of the cell `location`, for the colour that is to
    /// move.
    pub fn get_piece_location_in_chess_notation(&self, location: usize) -> (name: String)
        requires
            is_playing_square(location as int),
        ensures
            name@ == square_name(location as int, self@.white_to_move),
    {
        let mut name = String::new();
        self.append_square_name(&mut name, location);
        assert(name@ =~= square_name(location as int, self@.white_to_move));
        name
    }

    /// Records the move from `location` to `destination` as the last move.
    pub fn notate_move(&mut self, location: usize, destination: usize)
        requires
            is_playing_square(location as int),
            is_playing_square(destination as int),
        ensures
            final(self)@ == (Position {
                last_move: move_name(
                    location as int,
                    destination as int,
                    old(self)@.white_to_move,
                ),
                ..old(self)@
            }),
    {
        let mut move_notated = String::new();
        self.append_square_name(&mut move_notated, location);
        self.append_square_name(&mut move_notated, destination);
        assert(move_notated@ =~= move_name(
            location as int,
            destination as int,
            self@.white_to_move,
        ));
        self.last_move = move_notated;
    }
}

} // verus!
