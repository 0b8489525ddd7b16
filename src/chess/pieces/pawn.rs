use vstd::prelude::*;

use super::{dist, hostile, empty_matrix, mark, mat, mat_shape};
use crate::board::position::Position;
use crate::board::{on_grid, pos_on_grid, vacant, Board, Grid};
use crate::chess::color::Color;

verus! {

#[derive(Debug, Clone, Copy, PartialEq, Eq, Structural)]
pub struct Pawn {
    pub color: Color,
    pub move_count: u32,
}

/// The row direction in which pawns of `color` advance: White toward row 0.
pub open spec fn forward(color: Color) -> int {
    if color == Color::White {
        -1
    } else {
        1
    }
}

/// The row on which a pawn of `color` may take en passant.
pub open spec fn en_passant_row(color: Color) -> int {
    if color == Color::White {
        3
    } else {
        4
    }
}

/// One square forward onto an empty square; two from the unmoved state over two empty squares;
/// one square diagonally forward onto an opposing piece; or diagonally forward past the
/// pawn on `en_passant`, which stands beside it, from the en-passant row.
pub open spec fn pawn_reaches(
    g: Grid,
    r0: int,
    c0: int,
    color: Color,
    move_count: u32,
    en_passant: Option<Position>,
    r: int,
    c: int,
) -> bool {
    let d = forward(color);
    ||| (c == c0 && r == r0 + d && on_grid(g, r, c) && vacant(g, r, c))
    ||| (move_count == 0 && c == c0 && r == r0 + 2 * d && on_grid(g, r, c) && vacant(
        g,
        r0 + d,
        c0,
    ) && vacant(g, r, c))
    ||| (r == r0 + d && dist(c, c0) == 1 && on_grid(g, r, c) && hostile(g, r, c, color))
    ||| (en_passant matches Some(e) && r0 == en_passant_row(color) && e.row == r0 && dist(
        e.col as int,
        c0,
    ) == 1 && r == r0 + d && c == e.col && on_grid(g, r, c))
}

impl Pawn {
    /// A piece of this kind that has not moved yet.
    pub fn new(color: Color) -> (r: Self)
        ensures
            r.color == color,
            r.move_count == 0,
    {
        Self { color, move_count: 0 }
    }

    fn hostile_at(&self, board: &Board, row: usize, col: usize) -> (r: bool)
        requires
            board.wf(),
            on_grid(board@, row as int, col as int),
        ensures
            r == hostile(board@, row as int, col as int, self.color),
    {
        match board.piece(Position::new(row, col)) {
            Some(q) => q.color() != self.color,
            None => false,
        }
    }

    /// The squares this pawn may move to; `en_passant` is the square of a pawn that has just
    /// advanced two squares, if any.
    pub fn possible_moves(
        &self,
        board: &Board,
        position: Position,
        en_passant: Option<Position>,
    ) -> (m: Vec<Vec<bool>>)
        requires
            board.wf(),
            pos_on_grid(board@, position),
        ensures
            mat_shape(&m, board@),
            forall|r: int, c: int|
                on_grid(board@, r, c) ==> mat(&m, r, c) == pawn_reaches(
                    board@,
                    position.row as int,
                    position.col as int,
                    self.color,
                    self.move_count,
                    en_passant,
                    r,
                    c,
                ),
    {
        let (r0, c0) = (position.row, position.col);
        let rows = board.rows();
        let cols = board.cols();
        let white = self.color.is_white();
        let mut m = empty_matrix(board);
        // the row one step forward, if there is one
        let ahead: Option<usize> = if white {
            if r0 >= 1 {
                Some(r0 - 1)
            } else {
                None
            }
        } else if r0 + 1 < rows {
            Some(r0 + 1)
        } else {
            None
        };
        if let Some(r1) = ahead {
            if !board.there_is_a_piece(Position::new(r1, c0)) {
                mark(&mut m, Ghost(board@), r1, c0);
                if self.move_count == 0 {
                    let two: Option<usize> = if white {
                        if r0 >= 2 {
                            Some(r0 - 2)
                        } else {
                            None
                        }
                    } else if r0 + 2 < rows {
                        Some(r0 + 2)
                    } else {
                        None
                    };
                    if let Some(r2) = two {
                        if !board.there_is_a_piece(Position::new(r2, c0)) {
                            mark(&mut m, Ghost(board@), r2, c0);
                        }
                    }
                }
            }
            if c0 >= 1 && self.hostile_at(board, r1, c0 - 1) {
                mark(&mut m, Ghost(board@), r1, c0 - 1);
            }
            if c0 + 1 < cols && self.hostile_at(board, r1, c0 + 1) {
                mark(&mut m, Ghost(board@), r1, c0 + 1);
            }
            if let Some(e) = en_passant {
                if ((white && r0 == 3) || (!white && r0 == 4)) && e.row == r0 && e.col < cols && (
                (e.col < c0 && c0 - e.col == 1) || (e.col > c0 && e.col - c0 == 1)) {
                    mark(&mut m, Ghost(board@), r1, e.col);
                }
            }
        }
        m
    }
}

} // verus!
