pub mod bishop;
pub mod king;
pub mod knight;
pub mod pawn;
pub mod queen;
pub mod rook;

use vstd::prelude::*;

use crate::board::position::Position;
use crate::board::{cell, grid_cols, grid_rows, on_grid, vacant, Board, Grid};
use crate::chess::color::Color;

verus! {

/// A reachability matrix with one entry per square of the grid.
pub open spec fn mat_shape(m: &Vec<Vec<bool>>, g: Grid) -> bool {
    &&& m@.len() == grid_rows(g)
    &&& forall|i: int| 0 <= i < m@.len() ==> #[trigger] m@[i]@.len() == grid_cols(g)
}

pub open spec fn mat(m: &Vec<Vec<bool>>, r: int, c: int) -> bool {
    m@[r]@[c]
}

pub open spec fn dist(a: int, b: int) -> int {
    if a >= b {
        a - b
    } else {
        b - a
    }
}

/// The square holds a piece of the side opposite to `color`.
pub open spec fn hostile(g: Grid, r: int, c: int, color: Color) -> bool {
    cell(g, r, c) matches Some(q) && q.color() != color
}

/// A square that a piece of `color` may end on: on the grid, and empty or held by the other side.
pub open spec fn can_land(g: Grid, r: int, c: int, color: Color) -> bool {
    &&& on_grid(g, r, c)
    &&& (vacant(g, r, c) || cell(g, r, c)->0.color() != color)
}

/// `k` squares along a direction component `d` of -1, 0 or 1.
pub open spec fn step(d: int, k: int) -> int {
    if d > 0 {
        k
    } else if d < 0 {
        -k
    } else {
        0
    }
}

/// How many steps along direction `(dr, dc)` lead from `(r0, c0)` to `(r, c)`, if they lie on that ray.
pub open spec fn ray_index(r0: int, c0: int, dr: int, dc: int, r: int, c: int) -> int {
    if dr != 0 {
        dist(r, r0)
    } else {
        dist(c, c0)
    }
}

pub open spec fn on_ray(r0: int, c0: int, dr: int, dc: int, r: int, c: int) -> bool {
    let k = ray_index(r0, c0, dr, dc, r, c);
    &&& k >= 1
    &&& r == r0 + step(dr, k)
    &&& c == c0 + step(dc, k)
}

/// The first `k - 1` squares along the ray are empty.
pub open spec fn ray_clear(g: Grid, r0: int, c0: int, dr: int, dc: int, k: int) -> bool {
    forall|j: int| 1 <= j < k ==> #[trigger] vacant(g, r0 + step(dr, j), c0 + step(dc, j))
}

/// A sliding piece of `color` on `(r0, c0)` reaches `(r, c)` along direction `(dr, dc)`:
/// every square before it is empty, and it is empty or held by the other side.
pub open spec fn ray_reaches(
    g: Grid,
    r0: int,
    c0: int,
    dr: int,
    dc: int,
    color: Color,
    r: int,
    c: int,
) -> bool {
    &&& on_ray(r0, c0, dr, dc, r, c)
    &&& can_land(g, r, c, color)
    &&& ray_clear(g, r0, c0, dr, dc, ray_index(r0, c0, dr, dc, r, c))
}

pub open spec fn orthogonal_reaches(g: Grid, r0: int, c0: int, color: Color, r: int, c: int) -> bool {
    ||| ray_reaches(g, r0, c0, -1, 0, color, r, c)
    ||| ray_reaches(g, r0, c0, 1, 0, color, r, c)
    ||| ray_reaches(g, r0, c0, 0, -1, color, r, c)
    ||| ray_reaches(g, r0, c0, 0, 1, color, r, c)
}

pub open spec fn diagonal_reaches(g: Grid, r0: int, c0: int, color: Color, r: int, c: int) -> bool {
    ||| ray_reaches(g, r0, c0, -1, -1, color, r, c)
    ||| ray_reaches(g, r0, c0, -1, 1, color, r, c)
    ||| ray_reaches(g, r0, c0, 1, -1, color, r, c)
    ||| ray_reaches(g, r0, c0, 1, 1, color, r, c)
}

/// An all-false matrix shaped like the board.
pub fn empty_matrix(board: &Board) -> (m: Vec<Vec<bool>>)
    requires
        board.wf(),
    ensures
        mat_shape(&m, board@),
        forall|r: int, c: int| on_grid(board@, r, c) ==> !mat(&m, r, c),
{
    let rows = board.rows();
    let cols = board.cols();
    let mut m: Vec<Vec<bool>> = Vec::new();
    let mut i: usize = 0;
    while i < rows
        invariant
            i <= rows,
            rows == grid_rows(board@),
            cols == grid_cols(board@),
            m@.len() == i,
            forall|k: int| 0 <= k < i ==> #[trigger] m@[k]@.len() == cols,
            forall|k: int, j: int| 0 <= k < i && 0 <= j < cols ==> !#[trigger] m@[k]@[j],
        decreases rows - i,
    {
        let mut row: Vec<bool> = Vec::new();
        let mut j: usize = 0;
        while j < cols
            invariant
                j <= cols,
                row@.len() == j,
                forall|k: int| 0 <= k < j ==> !row@[k],
            decreases cols - j,
        {
            row.push(false);
            j = j + 1;
        }
        m.push(row);
        i = i + 1;
    }
    m
}

/// Marks one square of the matrix.
pub(crate) fn mark(m: &mut Vec<Vec<bool>>, g: Ghost<Grid>, r: usize, c: usize)
    requires
        mat_shape(old(m), g@),
        on_grid(g@, r as int, c as int),
    ensures
        mat_shape(final(m), g@),
        forall|i: int, j: int|
            on_grid(g@, i, j) ==> mat(final(m), i, j) == (mat(old(m), i, j) || (i == r && j == c)),
{
    m[r][c] = true;
}

/// Marks every square that a sliding piece of `color` on `(r0, c0)` reaches along `(dr, dc)`.
pub(crate) fn slide(
    board: &Board,
    r0: usize,
    c0: usize,
    dr: i8,
    dc: i8,
    color: Color,
    m: &mut Vec<Vec<bool>>,
)
    requires
        board.wf(),
        on_grid(board@, r0 as int, c0 as int),
        -1 <= dr <= 1,
        -1 <= dc <= 1,
        dr != 0 || dc != 0,
        mat_shape(old(m), board@),
    ensures
        mat_shape(final(m), board@),
        forall|r: int, c: int|
            on_grid(board@, r, c) ==> mat(final(m), r, c) == (mat(old(m), r, c) || ray_reaches(
                board@,
                r0 as int,
                c0 as int,
                dr as int,
                dc as int,
                color,
                r,
                c,
            )),
{
    let ghost g = board@;
    let ghost m0 = *m;
    let ghost (ir0, ic0, idr, idc) = (r0 as int, c0 as int, dr as int, dc as int);
    let rows = board.rows();
    let cols = board.cols();
    let mut r = r0;
    let mut c = c0;
    let ghost mut k: int = 0;
    loop
        invariant_except_break
            forall|i: int, j: int|
                on_grid(g, i, j) ==> mat(m, i, j) == (mat(&m0, i, j) || (on_ray(
                    ir0,
                    ic0,
                    idr,
                    idc,
                    i,
                    j,
                ) && ray_index(ir0, ic0, idr, idc, i, j) <= k)),
        invariant
            g == board@,
            board.wf(),
            rows == grid_rows(g),
            cols == grid_cols(g),
            ir0 == r0 && ic0 == c0 && idr == dr && idc == dc,
            -1 <= dr <= 1,
            -1 <= dc <= 1,
            dr != 0 || dc != 0,
            k >= 0,
            on_grid(g, ir0, ic0),
            k <= rows + cols,
            r == ir0 + step(idr, k),
            c == ic0 + step(idc, k),
            on_grid(g, r as int, c as int),
            ray_clear(g, ir0, ic0, idr, idc, k + 1),
            mat_shape(m, g),
        ensures
            mat_shape(m, g),
            forall|i: int, j: int|
                on_grid(g, i, j) ==> mat(m, i, j) == (mat(&m0, i, j) || ray_reaches(
                    g,
                    ir0,
                    ic0,
                    idr,
                    idc,
                    color,
                    i,
                    j,
                )),
        decreases rows + cols - k,
    {
        if (dr < 0 && r == 0) || (dr > 0 && r + 1 >= rows) || (dc < 0 && c == 0) || (dc > 0 && c
            + 1 >= cols) {
            assert forall|i: int, j: int| on_grid(g, i, j) implies mat(m, i, j) == (mat(&m0, i, j)
                || ray_reaches(g, ir0, ic0, idr, idc, color, i, j)) by {
                if on_ray(ir0, ic0, idr, idc, i, j) && ray_index(ir0, ic0, idr, idc, i, j) <= k {
                    let x = ray_index(ir0, ic0, idr, idc, i, j);
                    assert(vacant(g, ir0 + step(idr, x), ic0 + step(idc, x)));
                }
            }
            break;
        }
        let nr = if dr < 0 {
            r - 1
        } else if dr > 0 {
            r + 1
        } else {
            r
        };
        let nc = if dc < 0 {
            c - 1
        } else if dc > 0 {
            c + 1
        } else {
            c
        };
        let p = Position::new(nr, nc);
        assert(nr == ir0 + step(idr, k + 1) && nc == ic0 + step(idc, k + 1));
        if !board.there_is_a_piece(p) {
            mark(m, Ghost(g), nr, nc);
            r = nr;
            c = nc;
            proof {
                if idr != 0 {
                    assert(k + 1 < rows);
                } else {
                    assert(k + 1 < cols);
                }
                k = k + 1;
                assert forall|j: int| 1 <= j < k + 1 implies #[trigger] vacant(
                    g,
                    ir0 + step(idr, j),
                    ic0 + step(idc, j),
                ) by {
                    if j < k {
                    }
                }
            }
        } else {
            let hostile = match board.piece(p) {
                Some(q) => q.color() != color,
                None => false,
            };
            if hostile {
                mark(m, Ghost(g), nr, nc);
            }
            assert forall|i: int, j: int| on_grid(g, i, j) implies mat(m, i, j) == (mat(&m0, i, j)
                || ray_reaches(g, ir0, ic0, idr, idc, color, i, j)) by {
                if on_ray(ir0, ic0, idr, idc, i, j) {
                    let x = ray_index(ir0, ic0, idr, idc, i, j);
                    if x <= k {
                        assert(vacant(g, ir0 + step(idr, x), ic0 + step(idc, x)));
                    } else if x > k + 1 {
                        assert(!vacant(g, ir0 + step(idr, k + 1), ic0 + step(idc, k + 1)));
                    }
                }
            }
            break;
        }
    }
}

/// Marks the square `(dr, dc)` away from `(r0, c0)` when it is on the board and a piece of
/// `color` may end there.
pub(crate) fn mark_if_landable(
    board: &Board,
    r0: usize,
    c0: usize,
    dr: i8,
    dc: i8,
    color: Color,
    m: &mut Vec<Vec<bool>>,
)
    requires
        board.wf(),
        on_grid(board@, r0 as int, c0 as int),
        -2 <= dr <= 2,
        -2 <= dc <= 2,
        mat_shape(old(m), board@),
    ensures
        mat_shape(final(m), board@),
        forall|r: int, c: int|
            on_grid(board@, r, c) ==> mat(final(m), r, c) == (mat(old(m), r, c) || (r == r0 + dr
                && c == c0 + dc && can_land(board@, r, c, color))),
{
    let rows = board.rows();
    let cols = board.cols();
    if dr < 0 && r0 < (-dr) as usize {
        return;
    }
    if dr >= 0 && (dr as usize) >= rows - r0 {
        return;
    }
    if dc < 0 && c0 < (-dc) as usize {
        return;
    }
    if dc >= 0 && (dc as usize) >= cols - c0 {
        return;
    }
    let r = if dr < 0 {
        r0 - (-dr) as usize
    } else {
        r0 + dr as usize
    };
    let c = if dc < 0 {
        c0 - (-dc) as usize
    } else {
        c0 + dc as usize
    };
    let p = Position::new(r, c);
    let landable = match board.piece(p) {
        Some(q) => q.color() != color,
        None => true,
    };
    if landable {
        mark(m, Ghost(board@), r, c);
    }
}

} // verus!
