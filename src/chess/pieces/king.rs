use vstd::prelude::*;

use super::{can_land, dist, empty_matrix, mark, mark_if_landable, mat, mat_shape};
use crate::board::piece::Piece;
use crate::board::position::Position;
use crate::board::{cell, on_grid, pos_on_grid, vacant, Board, Grid};
use crate::chess::color::Color;

verus! {

#[derive(Debug, Clone, Copy, PartialEq, Eq, Structural)]
pub struct King {
    pub color: Color,
    pub move_count: u32,
}

/// A rook of `color` that has never moved stands on `(r, c)`.
pub open spec fn unmoved_rook(g: Grid, r: int, c: int, color: Color) -> bool {
    &&& on_grid(g, r, c)
    &&& cell(g, r, c) matches Some(Piece::Rook(rk))
    &&& rk.color == color
    &&& rk.move_count == 0
}

/// Castling: an unmoved king, not marked in check, goes two squares toward an unmoved rook
/// of its side when every square between them is empty.
pub open spec fn castles(
    g: Grid,
    r0: int,
    c0: int,
    color: Color,
    move_count: u32,
    check: bool,
    r: int,
    c: int,
) -> bool {
    &&& move_count == 0
    &&& !check
    &&& r == r0
    &&& {
        ||| (c == c0 + 2 && unmoved_rook(g, r0, c0 + 3, color) && vacant(g, r0, c0 + 1) && vacant(
            g,
            r0,
            c0 + 2,
        ))
        ||| (c == c0 - 2 && unmoved_rook(g, r0, c0 - 4, color) && vacant(g, r0, c0 - 1) && vacant(
            g,
            r0,
            c0 - 2,
        ) && vacant(g, r0, c0 - 3))
    }
}

/// One square in any direction, or castling.
pub open spec fn king_reaches(
    g: Grid,
    r0: int,
    c0: int,
    color: Color,
    move_count: u32,
    check: bool,
    r: int,
    c: int,
) -> bool {
    ||| (dist(r, r0) <= 1 && dist(c, c0) <= 1 && !(r == r0 && c == c0) && can_land(
        g,
        r,
        c,
        color,
    ))
    ||| castles(g, r0, c0, color, move_count, check, r, c)
}

impl King {
    /// A piece of this kind that has not moved yet.
    pub fn new(color: Color) -> (r: Self)
        ensures
            r.color == color,
            r.move_count == 0,
    {
        Self { color, move_count: 0 }
    }

    fn is_unmoved_rook(board: &Board, row: usize, col: usize, color: Color) -> (r: bool)
        requires
            board.wf(),
            on_grid(board@, row as int, col as int),
        ensures
            r == unmoved_rook(board@, row as int, col as int, color),
    {
        match board.piece(Position::new(row, col)) {
            Some(Piece::Rook(rk)) => rk.color == color && rk.move_count == 0,
            _ => false,
        }
    }

    /// The squares next to the king, and the castling squares; `check` tells whether the
    /// match marks a side in check, which rules castling out.
    pub fn possible_moves(&self, board: &Board, position: Position, check: bool) -> (m: Vec<
        Vec<bool>,
    >)
        requires
            board.wf(),
            pos_on_grid(board@, position),
        ensures
            mat_shape(&m, board@),
            forall|r: int, c: int|
                on_grid(board@, r, c) ==> mat(&m, r, c) == king_reaches(
                    board@,
                    position.row as int,
                    position.col as int,
                    self.color,
                    self.move_count,
                    check,
                    r,
                    c,
                ),
    {
        let (r0, c0) = (position.row, position.col);
        let color = self.color;
        let mut m = empty_matrix(board);
        mark_if_landable(board, r0, c0, -1, 0, color, &mut m);
        mark_if_landable(board, r0, c0, 1, 0, color, &mut m);
        mark_if_landable(board, r0, c0, 0, -1, color, &mut m);
        mark_if_landable(board, r0, c0, 0, 1, color, &mut m);
        mark_if_landable(board, r0, c0, -1, -1, color, &mut m);
        mark_if_landable(board, r0, c0, -1, 1, color, &mut m);
        mark_if_landable(board, r0, c0, 1, -1, color, &mut m);
        mark_if_landable(board, r0, c0, 1, 1, color, &mut m);
        let cols = board.cols();
        if self.move_count == 0 && !check {
            if cols - c0 > 3 && Self::is_unmoved_rook(board, r0, c0 + 3, color) {
                if !board.there_is_a_piece(Position::new(r0, c0 + 1)) && !board.there_is_a_piece(
                    Position::new(r0, c0 + 2),
                ) {
                    mark(&mut m, Ghost(board@), r0, c0 + 2);
                }
            }
            if c0 >= 4 && Self::is_unmoved_rook(board, r0, c0 - 4, color) {
                if !board.there_is_a_piece(Position::new(r0, c0 - 1)) && !board.there_is_a_piece(
                    Position::new(r0, c0 - 2),
                ) && !board.there_is_a_piece(Position::new(r0, c0 - 3)) {
                    mark(&mut m, Ghost(board@), r0, c0 - 2);
                }
            }
        }
        m
    }
}

} // verus!
