//! Positions that are set up without a description: the starting position
//! and five positions whose move trees are known, for counting.

use super::{cell_fits, ChessBoard, Position};
use vstd::prelude::*;

verus! {

/// The grid of the starting position of a game, seen by white.
pub const INITIAL_LAYOUT: [char; 120] = [
    ' ', ' ', ' ', ' ', ' ', ' ', ' ', ' ', ' ', '\n',
    ' ', ' ', ' ', ' ', ' ', ' ', ' ', ' ', ' ', '\n',
    ' ', 'r', 'n', 'b', 'q', 'k', 'b', 'n', 'r', '\n',
    ' ', 'p', 'p', 'p', 'p', 'p', 'p', 'p', 'p', '\n',
    ' ', '.', '.', '.', '.', '.', '.', '.', '.', '\n',
    ' ', '.', '.', '.', '.', '.', '.', '.', '.', '\n',
    ' ', '.', '.', '.', '.', '.', '.', '.', '.', '\n',
    ' ', '.', '.', '.', '.', '.', '.', '.', '.', '\n',
    ' ', 'P', 'P', 'P', 'P', 'P', 'P', 'P', 'P', '\n',
    ' ', 'R', 'N', 'B', 'Q', 'K', 'B', 'N', 'R', '\n',
    ' ', ' ', ' ', ' ', ' ', ' ', ' ', ' ', ' ', '\n',
    ' ', ' ', ' ', ' ', ' ', ' ', ' ', ' ', ' ', '\n',
];

/// The grid of a middlegame with every castling right, pins and a pawn about
/// to promote by capture, seen by white.
pub const LAYOUT_2: [char; 120] = [
    ' ', ' ', ' ', ' ', ' ', ' ', ' ', ' ', ' ', '\n',
    ' ', ' ', ' ', ' ', ' ', ' ', ' ', ' ', ' ', '\n',
    ' ', 'r', '.', '.', '.', 'k', '.', '.', 'r', '\n',
    ' ', 'p', '.', 'p', 'p', 'q', 'p', 'b', '.', '\n',
    ' ', 'b', 'n', '.', '.', 'p', 'n', 'p', '.', '\n',
    ' ', '.', '.', '.', 'P', 'N', '.', '.', '.', '\n',
    ' ', '.', 'p', '.', '.', 'P', '.', '.', '.', '\n',
    ' ', '.', '.', 'N', '.', '.', 'Q', '.', 'p', '\n',
    ' ', 'P', 'P', 'P', 'B', 'B', 'P', 'P', 'P', '\n',
    ' ', 'R', '.', '.', '.', 'K', '.', '.', 'R', '\n',
    ' ', ' ', ' ', ' ', ' ', ' ', ' ', ' ', ' ', '\n',
    ' ', ' ', ' ', ' ', ' ', ' ', ' ', ' ', ' ', '\n',
];

/// The grid of a rook ending in which en-passant captures uncover checks, seen
/// by white.
pub const LAYOUT_3: [char; 120] = [
    ' ', ' ', ' ', ' ', ' ', ' ', ' ', ' ', ' ', '\n',
    ' ', ' ', ' ', ' ', ' ', ' ', ' ', ' ', ' ', '\n',
    ' ', '.', '.', '.', '.', '.', '.', '.', '.', '\n',
    ' ', '.', '.', 'p', '.', '.', '.', '.', '.', '\n',
    ' ', '.', '.', '.', 'p', '.', '.', '.', '.', '\n',
    ' ', 'K', 'P', '.', '.', '.', '.', '.', 'r', '\n',
    ' ', '.', 'R', '.', '.', '.', 'p', '.', 'k', '\n',
    ' ', '.', '.', '.', '.', '.', '.', '.', '.', '\n',
    ' ', '.', '.', '.', '.', 'P', '.', 'P', '.', '\n',
    ' ', '.', '.', '.', '.', '.', '.', '.', '.', '\n',
    ' ', ' ', ' ', ' ', ' ', ' ', ' ', ' ', ' ', '\n',
    ' ', ' ', ' ', ' ', ' ', ' ', ' ', ' ', ' ', '\n',
];

/// The grid of a position with promotions on both sides and castling rights
/// for black only, seen by white.
pub const LAYOUT_4: [char; 120] = [
    ' ', ' ', ' ', ' ', ' ', ' ', ' ', ' ', ' ', '\n',
    ' ', ' ', ' ', ' ', ' ', ' ', ' ', ' ', ' ', '\n',
    ' ', 'r', '.', '.', '.', 'k', '.', '.', 'r', '\n',
    ' ', 'P', 'p', 'p', 'p', '.', 'p', 'p', 'p', '\n',
    ' ', '.', 'b', '.', '.', '.', 'n', 'b', 'N', '\n',
    ' ', 'n', 'P', '.', '.', '.', '.', '.', '.', '\n',
    ' ', 'B', 'B', 'P', '.', 'P', '.', '.', '.', '\n',
    ' ', 'q', '.', '.', '.', '.', 'N', '.', '.', '\n',
    ' ', 'P', 'p', '.', 'P', '.', '.', 'P', 'P', '\n',
    ' ', 'R', '.', '.', 'Q', '.', 'R', 'K', '.', '\n',
    ' ', ' ', ' ', ' ', ' ', ' ', ' ', ' ', ' ', '\n',
    ' ', ' ', ' ', ' ', ' ', ' ', ' ', ' ', ' ', '\n',
];

/// The grid of a position with a pawn on the seventh rank and castling rights
/// for white only, seen by white.
pub const LAYOUT_5: [char; 120] = [
    ' ', ' ', ' ', ' ', ' ', ' ', ' ', ' ', ' ', '\n',
    ' ', ' ', ' ', ' ', ' ', ' ', ' ', ' ', ' ', '\n',
    ' ', 'r', 'n', 'b', 'q', '.', 'k', '.', 'r', '\n',
    ' ', 'p', 'p', '.', 'P', 'b', 'p', 'p', 'p', '\n',
    ' ', '.', '.', 'p', '.', '.', '.', '.', '.', '\n',
    ' ', '.', '.', '.', '.', '.', '.', '.', '.', '\n',
    ' ', '.', '.', 'B', '.', '.', '.', '.', '.', '\n',
    ' ', '.', '.', '.', '.', '.', '.', '.', '.', '\n',
    ' ', 'P', 'P', 'P', '.', 'N', 'n', 'P', 'P', '\n',
    ' ', 'R', 'N', 'B', 'Q', 'K', '.', '.', 'R', '\n',
    ' ', ' ', ' ', ' ', ' ', ' ', ' ', ' ', ' ', '\n',
    ' ', ' ', ' ', ' ', ' ', ' ', ' ', ' ', ' ', '\n',
];

/// The grid of a quiet, symmetrical middlegame without castling rights, seen
/// by white.
pub const LAYOUT_6: [char; 120] = [
    ' ', ' ', ' ', ' ', ' ', ' ', ' ', ' ', ' ', '\n',
    ' ', ' ', ' ', ' ', ' ', ' ', ' ', ' ', ' ', '\n',
    ' ', 'r', '.', '.', '.', '.', 'r', 'k', '.', '\n',
    ' ', '.', 'p', 'p', '.', 'q', 'p', 'p', 'p', '\n',
    ' ', 'p', '.', 'n', 'p', '.', 'n', '.', '.', '\n',
    ' ', '.', '.', 'b', '.', 'p', '.', 'B', '.', '\n',
    ' ', '.', '.', 'B', '.', 'P', '.', 'b', '.', '\n',
    ' ', 'P', '.', 'N', 'P', '.', 'N', '.', '.', '\n',
    ' ', '.', 'P', 'P', '.', 'Q', 'P', 'P', 'P', '\n',
    ' ', 'R', '.', '.', '.', '.', 'R', 'K', '.', '\n',
    ' ', ' ', ' ', ' ', ' ', ' ', ' ', ' ', ' ', '\n',
    ' ', ' ', ' ', ' ', ' ', ' ', ' ', ' ', ' ', '\n',
];

/// The position with the grid `layout` and the given castling rights: white
/// to move, no en-passant target, no last move and the score 0.
pub open spec fn set_up(
    layout: Seq<char>,
    white_castling: (bool, bool),
    black_castling: (bool, bool),
) -> Position {
    Position {
        cells: layout,
        white_to_move: true,
        white_castling,
        black_castling,
        en_passant_square: 0,
        en_passant_lifetime: 0,
        last_move: Seq::empty(),
        score: 0,
    }
}

impl ChessBoard {
    /// Sets the board up with the given grid and castling rights.
    fn set_up_layout(
        &mut self,
        layout: &[char; 120],
        white_castling: (bool, bool),
        black_castling: (bool, bool),
    )
        ensures
            final(self)@ == set_up(layout@, white_castling, black_castling),
    {
        self.board_vector.clear();
        let mut taken: usize = 0;
        while taken < 120
            invariant
                taken <= 120,
                self.board_vector@ == layout@.subrange(0, taken as int),
            decreases 120 - taken,
        {
            self.board_vector.push(layout[taken]);
            taken = taken + 1;
            assert(self.board_vector@ =~= layout@.subrange(0, taken as int));
        }
        assert(self.board_vector@ =~= layout@);
        self.current_color = true;
        self.white_castling_rights = white_castling;
        self.black_castling_rights = black_castling;
        self.en_passant_square = 0;
        self.en_passant_lifetime = 0;
        self.last_move = String::new();
        self.score = 0;
    }

    /// Sets up the starting position of a game, white to move.
    pub fn setup_initial_position(&mut self)
        ensures
            final(self)@ == set_up(INITIAL_LAYOUT@, (true, true), (true, true)),
    {
        self.set_up_layout(&INITIAL_LAYOUT, (true, true), (true, true));
    }

    /// Sets up a middlegame with every castling right, pins and a pawn about
    /// to promote by capture, white to move.
    pub fn setup_position_2(&mut self)
        ensures
            final(self)@ == set_up(LAYOUT_2@, (true, true), (true, true)),
    {
        self.set_up_layout(&LAYOUT_2, (true, true), (true, true));
    }

    /// Sets up a rook ending in which en-passant captures uncover checks,
    /// white to move.
    pub fn setup_position_3(&mut self)
        ensures
            final(self)@ == set_up(LAYOUT_3@, (false, false), (false, false)),
    {
        self.set_up_layout(&LAYOUT_3, (false, false), (false, false));
    }

    /// Sets up a position with promotions on both sides and castling rights
    /// for black only, white to move.
    pub fn setup_position_4(&mut self)
        ensures
            final(self)@ == set_up(LAYOUT_4@, (false, false), (true, true)),
    {
        self.set_up_layout(&LAYOUT_4, (false, false), (true, true));
    }

    /// Sets up a position with a pawn on the seventh rank and castling rights
    /// for white only, white to move.
    pub fn setup_position_5(&mut self)
        ensures
            final(self)@ == set_up(LAYOUT_5@, (true, true), (false, false)),
    {
        self.set_up_layout(&LAYOUT_5, (true, true), (false, false));
    }

    /// Sets up a quiet, symmetrical middlegame without castling rights, white
    /// to move.
    pub fn setup_position_6(&mut self)
        ensures
            final(self)@ == set_up(LAYOUT_6@, (false, false), (false, false)),
    {
        self.set_up_layout(&LAYOUT_6, (false, false), (false, false));
    }
}

/// The starting position: the initial grid with every castling right.
pub open spec fn initial_position() -> Position {
    set_up(INITIAL_LAYOUT@, (true, true), (true, true))
}

/// The starting position is well formed.
pub proof fn lemma_initial_position_well_formed()
    ensures
        initial_position().well_formed(),
{
    let cells = INITIAL_LAYOUT@;
    assert forall|i: int| 0 <= i < 120 implies #[trigger] cell_fits(cells[i], i) by {
        if i < 30 {
        } else if i < 60 {
        } else if i < 90 {
        } else {
        }
    }
}

} // verus!
