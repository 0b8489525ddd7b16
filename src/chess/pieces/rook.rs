use vstd::prelude::*;

use super::{empty_matrix, mat, mat_shape, orthogonal_reaches, slide};
use crate::board::position::Position;
use crate::board::{on_grid, pos_on_grid, Board};
use crate::chess::color::Color;

verus! {

#[derive(Debug, Clone, Copy, PartialEq, Eq, Structural)]
pub struct Rook {
    pub color: Color,
    pub move_count: u32,
}

impl Rook {
    /// A piece of this kind that has not moved yet.
    pub fn new(color: Color) -> (r: Self)
        ensures
            r.color == color,
            r.move_count == 0,
    {
        Self { color, move_count: 0 }
    }

    /// Slides along rows and columns, up to the edge or the first occupied square, which it takes when it holds an opposing piece.
    pub fn possible_moves(&self, board: &Board, position: Position) -> (m: Vec<Vec<bool>>)
        requires
            board.wf(),
            pos_on_grid(board@, position),
        ensures
            mat_shape(&m, board@),
            forall|r: int, c: int|
                on_grid(board@, r, c) ==> mat(&m, r, c) == orthogonal_reaches(board@, position.row as int, position.col as int, self.color, r, c),
    {
        let mut m = empty_matrix(board);
        slide(board, position.row, position.col, -1, 0, self.color, &mut m);
        slide(board, position.row, position.col, 1, 0, self.color, &mut m);
        slide(board, position.row, position.col, 0, -1, self.color, &mut m);
        slide(board, position.row, position.col, 0, 1, self.color, &mut m);
        m
    }
}

} // verus!
