use vstd::prelude::*;

verus! {

/// The content of one square of the board: a mark of either player, or nothing.
#[derive(Clone, Copy, Debug, PartialEq, Eq, Structural)]
pub enum Cell {
    X,
    O,
    Empty,
}

/// How hard the computer player tries.
#[derive(Clone, Copy, Debug, PartialEq, Eq, Structural)]
pub enum Level {
    Stupid,
    Normal,
    Smart,
}

/// The text that shows a cell: its mark, or nothing for an empty square.
pub open spec fn cell_text(c: Cell) -> Seq<char> {
    match c {
        Cell::X => seq!['X'],
        Cell::O => seq!['O'],
        Cell::Empty => seq![],
    }
}

/// A player's mark (X or O), as opposed to an empty square.
pub open spec fn is_mark(c: Cell) -> bool {
    c == Cell::X || c == Cell::O
}

/// The other player's mark; an empty square has no opponent.
pub open spec fn opponent_of(c: Cell) -> Cell {
    match c {
        Cell::X => Cell::O,
        Cell::O => Cell::X,
        Cell::Empty => Cell::Empty,
    }
}

impl Cell {
    /// Returns the cell's contents as text.
    pub fn to_str(&self) -> (r: &str)
        ensures
            r@ == cell_text(*self),
    {
        match self {
            Cell::X => {
                proof { reveal_strlit("X"); }
                "X"
            },
            Cell::O => {
                proof { reveal_strlit("O"); }
                "O"
            },
            Cell::Empty => {
                proof { reveal_strlit(""); }
                ""
            },
        }
    }
}

} // verus!
