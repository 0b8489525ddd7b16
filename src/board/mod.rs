pub mod piece;
pub mod position;

use vstd::prelude::*;

use self::piece::Piece;
use self::position::Position;
use crate::error::{ChessError, ChessErrorKind};

verus! {

/// The contents of a board, row by row: `None` for an empty square.
pub type Grid = Seq<Seq<Option<Piece>>>;

pub open spec fn grid_rows(g: Grid) -> int {
    g.len() as int
}

pub open spec fn grid_cols(g: Grid) -> int {
    if g.len() > 0 {
        g[0].len() as int
    } else {
        0
    }
}

/// At least one row and one column, and every row as long as the first.
pub open spec fn grid_wf(g: Grid) -> bool {
    &&& g.len() >= 1
    &&& g[0].len() >= 1
    &&& forall|i: int| 0 <= i < g.len() ==> #[trigger] g[i].len() == g[0].len()
}

pub open spec fn on_grid(g: Grid, r: int, c: int) -> bool {
    0 <= r < grid_rows(g) && 0 <= c < grid_cols(g)
}

pub open spec fn cell(g: Grid, r: int, c: int) -> Option<Piece> {
    g[r][c]
}

pub open spec fn vacant(g: Grid, r: int, c: int) -> bool {
    cell(g, r, c) is None
}

/// The grid with one square overwritten.
pub open spec fn set_cell(g: Grid, r: int, c: int, v: Option<Piece>) -> Grid {
    g.update(r, g[r].update(c, v))
}

pub open spec fn at(g: Grid, p: Position) -> Option<Piece> {
    cell(g, p.row as int, p.col as int)
}

pub open spec fn pos_on_grid(g: Grid, p: Position) -> bool {
    on_grid(g, p.row as int, p.col as int)
}

/// A rectangular board of optional pieces.
pub struct Board {
    rows: usize,
    cols: usize,
    pieces: Vec<Vec<Option<Piece>>>,
}

impl View for Board {
    type V = Grid;

    closed spec fn view(&self) -> Grid {
        Seq::new(self.pieces@.len(), |i: int| self.pieces@[i]@)
    }
}

impl Board {
    pub closed spec fn wf(&self) -> bool {
        &&& grid_wf(self@)
        &&& self.rows == self@.len()
        &&& self.cols == self@[0].len()
    }

    /// An empty board of the given size; both sizes must be at least 1.
    pub fn new(rows: usize, cols: usize) -> (r: Result<Self, ChessError>)
        ensures
            (rows < 1 || cols < 1) <==> r is Err,
            r matches Err(e) ==> e.0 == ChessErrorKind::InvalidDimensions,
            r matches Ok(b) ==> {
                &&& b.wf()
                &&& grid_rows(b@) == rows
                &&& grid_cols(b@) == cols
                &&& forall|i: int, j: int| on_grid(b@, i, j) ==> vacant(b@, i, j)
            },
    {
        if rows < 1 || cols < 1 {
            return Err(ChessError(ChessErrorKind::InvalidDimensions));
        }
        let mut pieces: Vec<Vec<Option<Piece>>> = Vec::new();
        let mut i: usize = 0;
        while i < rows
            invariant
                i <= rows,
                pieces@.len() == i,
                forall|k: int| 0 <= k < i ==> (#[trigger] pieces@[k])@.len() == cols,
                forall|k: int, j: int|
                    0 <= k < i && 0 <= j < cols ==> #[trigger] pieces@[k]@[j] is None,
            decreases rows - i,
        {
            let mut row: Vec<Option<Piece>> = Vec::new();
            let mut j: usize = 0;
            while j < cols
                invariant
                    j <= cols,
                    row@.len() == j,
                    forall|k: int| 0 <= k < j ==> row@[k] is None,
                decreases cols - j,
            {
                row.push(None);
                j = j + 1;
            }
            pieces.push(row);
            i = i + 1;
        }
        let b = Board { rows, cols, pieces };
        assert(b@[0].len() == cols);
        Ok(b)
    }

    pub proof fn lemma_wf(&self)
        requires
            self.wf(),
        ensures
            grid_wf(self@),
            grid_cols(self@) <= usize::MAX,
    {
    }

    pub fn rows(&self) -> (r: usize)
        requires
            self.wf(),
        ensures
            r == grid_rows(self@),
    {
        self.rows
    }

    pub fn cols(&self) -> (r: usize)
        requires
            self.wf(),
        ensures
            r == grid_cols(self@),
    {
        self.cols
    }

    /// The piece on a square of the board.
    pub fn piece(&self, position: Position) -> (r: Option<&Piece>)
        requires
            self.wf(),
            pos_on_grid(self@, position),
        ensures
            r matches Some(p) ==> at(self@, position) == Some(*p),
            r is None <==> at(self@, position) is None,
    {
        self.pieces[position.row][position.col].as_ref()
    }

    /// Puts a piece on an empty square.
    pub fn place_piece(&mut self, piece: Piece, position: Position) -> (r: Result<(), ChessError>)
        requires
            old(self).wf(),
            pos_on_grid(old(self)@, position),
        ensures
            final(self).wf(),
            r is Err <==> at(old(self)@, position) is Some,
            r matches Err(e) ==> e.0 == ChessErrorKind::OccupiedSquare && final(self)@ == old(self)@,
            r is Ok ==> final(self)@ == set_cell(
                old(self)@,
                position.row as int,
                position.col as int,
                Some(piece),
            ),
    {
        if self.there_is_a_piece(position) {
            return Err(ChessError(ChessErrorKind::OccupiedSquare));
        }
        self.pieces[position.row][position.col] = Some(piece);
        assert(self@ =~= set_cell(old(self)@, position.row as int, position.col as int, Some(piece)));
        Ok(())
    }

    /// Empties a square and hands back what stood there.
    pub fn remove_piece(&mut self, position: Position) -> (r: Option<Piece>)
        requires
            old(self).wf(),
            pos_on_grid(old(self)@, position),
        ensures
            final(self).wf(),
            r == at(old(self)@, position),
            final(self)@ == set_cell(old(self)@, position.row as int, position.col as int, None),
    {
        let r = self.pieces[position.row][position.col];
        self.pieces[position.row][position.col] = None;
        assert(self@ =~= set_cell(old(self)@, position.row as int, position.col as int, None));
        r
    }

    pub fn position_exists(&self, position: Position) -> (r: bool)
        requires
            self.wf(),
        ensures
            r == pos_on_grid(self@, position),
    {
        position.row < self.rows && position.col < self.cols
    }

    pub fn there_is_a_piece(&self, position: Position) -> (r: bool)
        requires
            self.wf(),
            pos_on_grid(self@, position),
        ensures
            r == (at(self@, position) is Some),
    {
        self.piece(position).is_some()
    }
}

} // verus!
