use vstd::prelude::*;

verus! {

/// A zero-based address on a board: row 0 is the top rank as drawn.
#[derive(Debug, Clone, Copy, PartialEq, Eq, Hash, Structural)]
pub struct Position {
    pub row: usize,
    pub col: usize,
}

impl Position {
    pub fn new(row: usize, col: usize) -> (r: Self)
        ensures
            r.row == row,
            r.col == col,
    {
        Position { row, col }
    }
}

} // verus!
