use vstd::prelude::*;

use super::{can_land, dist, empty_matrix, mark_if_landable, mat, mat_shape};
use crate::board::position::Position;
use crate::board::{on_grid, pos_on_grid, Board, Grid};
use crate::chess::color::Color;

verus! {

#[derive(Debug, Clone, Copy, PartialEq, Eq, Structural)]
pub struct Knight {
    pub color: Color,
    pub move_count: u32,
}

/// A knight jumps two squares one way and one square the other.
pub open spec fn knight_reaches(g: Grid, r0: int, c0: int, color: Color, r: int, c: int) -> bool {
    &&& ((dist(r, r0) == 1 && dist(c, c0) == 2) || (dist(r, r0) == 2 && dist(c, c0) == 1))
    &&& can_land(g, r, c, color)
}

impl Knight {
    /// A piece of this kind that has not moved yet.
    pub fn new(color: Color) -> (r: Self)
        ensures
            r.color == color,
            r.move_count == 0,
    {
        Self { color, move_count: 0 }
    }

    /// The eight L-shaped jumps that land on the board and not on a piece of its own side.
    pub fn possible_moves(&self, board: &Board, position: Position) -> (m: Vec<Vec<bool>>)
        requires
            board.wf(),
            pos_on_grid(board@, position),
        ensures
            mat_shape(&m, board@),
            forall|r: int, c: int|
                on_grid(board@, r, c) ==> mat(&m, r, c) == knight_reaches(
                    board@,
                    position.row as int,
                    position.col as int,
                    self.color,
                    r,
                    c,
                ),
    {
        let (r0, c0) = (position.row, position.col);
        let mut m = empty_matrix(board);
        mark_if_landable(board, r0, c0, -1, -2, self.color, &mut m);
        mark_if_landable(board, r0, c0, -2, -1, self.color, &mut m);
        mark_if_landable(board, r0, c0, -2, 1, self.color, &mut m);
        mark_if_landable(board, r0, c0, -1, 2, self.color, &mut m);
        mark_if_landable(board, r0, c0, 1, 2, self.color, &mut m);
        mark_if_landable(board, r0, c0, 2, 1, self.color, &mut m);
        mark_if_landable(board, r0, c0, 2, -1, self.color, &mut m);
        mark_if_landable(board, r0, c0, 1, -2, self.color, &mut m);
        m
    }
}

} // verus!
