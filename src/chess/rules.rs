use vstd::prelude::*;

use crate::board::piece::Piece;
use crate::board::position::Position;
use crate::board::{vacant, at, cell, grid_cols, grid_rows, grid_wf, on_grid, pos_on_grid, set_cell, Grid};
use crate::chess::chess_position::ChessPosition;
use crate::chess::color::Color;
use crate::chess::pieces::bishop::Bishop;
use crate::chess::pieces::dist;
use crate::chess::pieces::king::King;
use crate::chess::pieces::knight::Knight;
use crate::chess::pieces::pawn::Pawn;
use crate::chess::pieces::queen::Queen;
use crate::chess::pieces::rook::Rook;
use crate::chess::pieces::king::{castles, unmoved_rook};
use crate::error::ChessErrorKind;

verus! {

pub open spec fn opposite(c: Color) -> Color {
    if c == Color::White {
        Color::Black
    } else {
        Color::White
    }
}

pub open spec fn put(g: Grid, p: Position, v: Option<Piece>) -> Grid {
    set_cell(g, p.row as int, p.col as int, v)
}

/// The squares that hold a piece.
pub open spec fn occupied_squares(g: Grid) -> Set<Position> {
    Set::new(|p: Position| pos_on_grid(g, p) && at(g, p) is Some)
}

/// The state of a match as the rules see it.
pub struct MatchView {
    pub grid: Grid,
    pub turn: u32,
    pub current_player: Color,
    pub check: bool,
    pub check_mate: bool,
    pub en_passant: Option<Position>,
    /// The index of occupied squares that the match keeps beside its board.
    pub index: Set<Position>,
    pub captured: Seq<Piece>,
}

/// Every piece on the grid has moved fewer than `bound` times.
pub open spec fn counts_below(g: Grid, bound: int) -> bool {
    forall|r: int, c: int|
        on_grid(g, r, c) && cell(g, r, c) is Some ==> (#[trigger] cell(g, r, c))->0.move_count()
            < bound
}

/// What every match satisfies: an 8 by 8 board, an index that names exactly the occupied
/// squares, and move counters bounded by the number of moves played.
pub open spec fn valid_match(v: MatchView) -> bool {
    &&& grid_wf(v.grid)
    &&& grid_rows(v.grid) == 8
    &&& grid_cols(v.grid) == 8
    &&& v.index == occupied_squares(v.grid)
    &&& v.turn >= 1
    &&& counts_below(v.grid, v.turn + if v.check_mate { 1int } else { 0int })
}

/// The piece that starts on column `c` of a side's back rank.
pub open spec fn back_rank(c: int, color: Color) -> Piece {
    if c == 0 || c == 7 {
        Piece::Rook(Rook { color, move_count: 0 })
    } else if c == 1 || c == 6 {
        Piece::Knight(Knight { color, move_count: 0 })
    } else if c == 2 || c == 5 {
        Piece::Bishop(Bishop { color, move_count: 0 })
    } else if c == 3 {
        Piece::Queen(Queen { color, move_count: 0 })
    } else {
        Piece::King(King { color, move_count: 0 })
    }
}

/// The standard starting placement: Black on rows 0 and 1, White on rows 6 and 7.
pub open spec fn initial_cell(r: int, c: int) -> Option<Piece> {
    if r == 0 {
        Some(back_rank(c, Color::Black))
    } else if r == 1 {
        Some(Piece::Pawn(Pawn { color: Color::Black, move_count: 0 }))
    } else if r == 6 {
        Some(Piece::Pawn(Pawn { color: Color::White, move_count: 0 }))
    } else if r == 7 {
        Some(back_rank(c, Color::White))
    } else {
        None
    }
}

/// The piece on `s` may go to `t` under its kind's rule (its own king's safety aside).
pub open spec fn can_move(
    g: Grid,
    check: bool,
    en_passant: Option<Position>,
    s: Position,
    t: Position,
) -> bool {
    &&& pos_on_grid(g, s)
    &&& pos_on_grid(g, t)
    &&& at(g, s) matches Some(p)
    &&& p.reaches(g, s.row as int, s.col as int, check, en_passant, t.row as int, t.col as int)
}

pub open spec fn has_moves(g: Grid, check: bool, en_passant: Option<Position>, s: Position) -> bool {
    exists|t: Position| #[trigger] can_move(g, check, en_passant, s, t)
}

pub open spec fn is_king_of(g: Grid, color: Color, r: int, c: int) -> bool {
    &&& on_grid(g, r, c)
    &&& cell(g, r, c) matches Some(p)
    &&& p.is_king()
    &&& p.color() == color
}

/// The king of `color` that comes first in reading order, row by row.
pub open spec fn first_king(g: Grid, color: Color, k: Position) -> bool {
    &&& is_king_of(g, color, k.row as int, k.col as int)
    &&& forall|r: int, c: int|
        (r < k.row || (r == k.row && c < k.col)) ==> !#[trigger] is_king_of(g, color, r, c)
}

pub open spec fn has_king(g: Grid, color: Color) -> bool {
    exists|r: int, c: int| #[trigger] is_king_of(g, color, r, c)
}

/// Some piece of side `color` reaches the square `t`.
pub open spec fn attacked_by(
    g: Grid,
    check: bool,
    en_passant: Option<Position>,
    color: Color,
    t: Position,
) -> bool {
    exists|s: Position| #[trigger] can_move(g, check, en_passant, s, t) && at(g, s)->0.color() == color
}

/// Side `color` is in check: its king is reached by an opposing piece. A side without a king
/// counts as in check.
pub open spec fn in_check(g: Grid, check: bool, en_passant: Option<Position>, color: Color) -> bool {
    ||| !has_king(g, color)
    ||| exists|k: Position| #[trigger]
        first_king(g, color, k) && attacked_by(g, check, en_passant, opposite(color), k)
}

/// What a move did, enough to take it back exactly.
#[derive(Debug, Clone, Copy)]
pub struct MoveRecord {
    pub source: Position,
    pub target: Position,
    /// The piece taken, if any.
    pub captured: Option<Piece>,
    /// Where the taken piece stood: the target, or the passed pawn's square en passant.
    pub captured_at: Position,
    /// The rook's squares before and after, when the move castled.
    pub castling: Option<(Position, Position)>,
}

/// A pawn moves diagonally onto an empty square: it takes en passant.
pub open spec fn takes_en_passant(g: Grid, s: Position, t: Position) -> bool {
    &&& at(g, s) matches Some(p)
    &&& p.is_pawn()
    &&& s.col != t.col
    &&& at(g, t) is None
}

/// The square of the piece that a move takes: behind the target for en passant.
pub open spec fn capture_square(g: Grid, s: Position, t: Position) -> Position {
    if takes_en_passant(g, s, t) {
        Position {
            row: (if at(g, s)->0.color() == Color::White {
                t.row + 1
            } else {
                t.row - 1
            }) as usize,
            col: t.col,
        }
    } else {
        t
    }
}

/// A king moving two columns castles: the rook's squares before and after.
pub open spec fn rook_shift(g: Grid, s: Position, t: Position) -> Option<(Position, Position)> {
    if at(g, s) is Some && at(g, s)->0.is_king() && dist(t.col as int, s.col as int) == 2 {
        if t.col > s.col {
            Some(
                (
                    Position { row: s.row, col: (s.col + 3) as usize },
                    Position { row: s.row, col: (s.col + 1) as usize },
                ),
            )
        } else {
            Some(
                (
                    Position { row: s.row, col: (s.col - 4) as usize },
                    Position { row: s.row, col: (s.col - 1) as usize },
                ),
            )
        }
    } else {
        None
    }
}

pub open spec fn rook_from(g: Grid, s: Position, t: Position) -> Position {
    let (rf, rt) = rook_shift(g, s, t)->0;
    rf
}

pub open spec fn rook_to(g: Grid, s: Position, t: Position) -> Position {
    let (rf, rt) = rook_shift(g, s, t)->0;
    rt
}

pub open spec fn move_record(g: Grid, s: Position, t: Position) -> MoveRecord {
    MoveRecord {
        source: s,
        target: t,
        captured: at(g, capture_square(g, s, t)),
        captured_at: capture_square(g, s, t),
        castling: rook_shift(g, s, t),
    }
}

pub open spec fn bumped(p: Piece) -> Piece {
    p.with_move_count((p.move_count() + 1) as u32)
}

pub open spec fn unbumped(p: Piece) -> Piece {
    p.with_move_count((p.move_count() - 1) as u32)
}

/// The grid after the piece on `s` goes to `t`: what stood on the target (or, en passant,
/// behind it) is taken, the mover's counter goes up, and a castling king brings its rook.
pub open spec fn moved_grid(g: Grid, s: Position, t: Position) -> Grid {
    let g2 = put(put(g, s, None), t, None);
    let g3 = if takes_en_passant(g, s, t) {
        put(g2, capture_square(g, s, t), None)
    } else {
        g2
    };
    let g4 = put(g3, t, Some(bumped(at(g, s)->0)));
    match rook_shift(g, s, t) {
        Some((rf, rt)) => put(put(g4, rf, None), rt, Some(bumped(at(g4, rf)->0))),
        None => g4,
    }
}

/// The grid after a recorded move is taken back.
pub open spec fn reverted_grid(g: Grid, rec: MoveRecord) -> Grid {
    let g1 = put(put(g, rec.target, None), rec.source, Some(unbumped(at(g, rec.target)->0)));
    let g2 = if rec.captured is Some {
        put(g1, rec.captured_at, rec.captured)
    } else {
        g1
    };
    match rec.castling {
        Some((rf, rt)) => put(put(g2, rt, None), rf, Some(unbumped(at(g2, rt)->0))),
        None => g2,
    }
}

/// A move carried out on the board, the index and the capture history; nothing else changes.
pub open spec fn applied(v: MatchView, s: Position, t: Position) -> MatchView {
    let g = moved_grid(v.grid, s, t);
    let rec = move_record(v.grid, s, t);
    MatchView {
        grid: g,
        turn: v.turn,
        current_player: v.current_player,
        check: v.check,
        check_mate: v.check_mate,
        en_passant: v.en_passant,
        index: occupied_squares(g),
        captured: match rec.captured {
            Some(p) => v.captured.push(p),
            None => v.captured,
        },
    }
}

/// A recorded move taken back.
pub open spec fn reverted(v: MatchView, rec: MoveRecord) -> MatchView {
    let g = reverted_grid(v.grid, rec);
    MatchView {
        grid: g,
        turn: v.turn,
        current_player: v.current_player,
        check: v.check,
        check_mate: v.check_mate,
        en_passant: v.en_passant,
        index: occupied_squares(g),
        captured: if rec.captured is Some {
            v.captured.drop_last()
        } else {
            v.captured
        },
    }
}

/// Side `color` has a move that leaves it out of check.
pub open spec fn escapes(
    g: Grid,
    check: bool,
    en_passant: Option<Position>,
    color: Color,
    s: Position,
    t: Position,
) -> bool {
    &&& can_move(g, check, en_passant, s, t)
    &&& at(g, s)->0.color() == color
    &&& !in_check(moved_grid(g, s, t), check, en_passant, color)
}

/// Side `color` is in check and no move of any of its pieces ends that.
pub open spec fn checkmate(g: Grid, check: bool, en_passant: Option<Position>, color: Color) -> bool {
    &&& in_check(g, check, en_passant, color)
    &&& !exists|s: Position, t: Position| #[trigger] escapes(g, check, en_passant, color, s, t)
}

/// The moved piece is a pawn that advanced two rows.
pub open spec fn double_step(g: Grid, s: Position, t: Position) -> bool {
    &&& at(g, t) is Some
    &&& at(g, t)->0.is_pawn()
    &&& dist(s.row as int, t.row as int) == 2
}

/// The match after a legal move from `s` to `t` is committed.
pub open spec fn committed(v: MatchView, s: Position, t: Position) -> MatchView {
    let a = applied(v, s, t);
    let ep = if double_step(a.grid, s, t) {
        Some(t)
    } else {
        None
    };
    let opp = opposite(v.current_player);
    let check = in_check(a.grid, v.check, ep, opp);
    let mate = checkmate(a.grid, check, ep, opp);
    MatchView {
        grid: a.grid,
        turn: if mate {
            v.turn
        } else {
            (v.turn + 1) as u32
        },
        current_player: if mate {
            v.current_player
        } else {
            opp
        },
        check,
        check_mate: mate,
        en_passant: ep,
        index: a.index,
        captured: a.captured,
    }
}

/// Why a move request is refused, in the order the checks are made; `None` for a legal move.
pub open spec fn move_error(v: MatchView, s: Position, target: ChessPosition) -> Option<
    ChessErrorKind,
> {
    if v.check_mate {
        Some(ChessErrorKind::GameOver)
    } else if at(v.grid, s) is None {
        Some(ChessErrorKind::NoPieceAtSource)
    } else if at(v.grid, s)->0.color() != v.current_player {
        Some(ChessErrorKind::NotYourPiece)
    } else if !has_moves(v.grid, v.check, v.en_passant, s) {
        Some(ChessErrorKind::NoLegalMoves)
    } else if !target.is_valid() {
        Some(ChessErrorKind::TargetOutOfBounds)
    } else if !can_move(v.grid, v.check, v.en_passant, s, target.square()) {
        Some(ChessErrorKind::IllegalTarget)
    } else if in_check(
        moved_grid(v.grid, s, target.square()),
        v.check,
        v.en_passant,
        v.current_player,
    ) {
        Some(ChessErrorKind::SelfCheck)
    } else {
        None
    }
}

/// Overwriting one square keeps the grid's shape and leaves every other square as it was.
pub proof fn lemma_put(g: Grid, p: Position, v: Option<Piece>)
    requires
        grid_wf(g),
        pos_on_grid(g, p),
    ensures
        grid_wf(put(g, p, v)),
        grid_rows(put(g, p, v)) == grid_rows(g),
        grid_cols(put(g, p, v)) == grid_cols(g),
        forall|i: int, j: int|
            on_grid(g, i, j) ==> #[trigger] cell(put(g, p, v), i, j) == if i == p.row && j
                == p.col {
                v
            } else {
                cell(g, i, j)
            },
{
    let h = put(g, p, v);
    assert forall|i: int| 0 <= i < h.len() implies #[trigger] h[i].len() == h[0].len() by {
        assert(g[i].len() == g[0].len());
    }
}

/// Two grids of one shape with the same squares are equal.
pub proof fn lemma_grid_ext(a: Grid, b: Grid)
    requires
        grid_wf(a),
        grid_wf(b),
        grid_rows(a) == grid_rows(b),
        grid_cols(a) == grid_cols(b),
        forall|i: int, j: int| on_grid(a, i, j) ==> #[trigger] cell(a, i, j) == cell(b, i, j),
    ensures
        a == b,
{
    assert forall|i: int| 0 <= i < a.len() implies #[trigger] a[i] == b[i] by {
        assert(a[i].len() == a[0].len());
        assert(b[i].len() == b[0].len());
        assert forall|j: int| 0 <= j < a[i].len() implies a[i][j] == b[i][j] by {
            assert(cell(a, i, j) == cell(b, i, j));
        }
        assert(a[i] =~= b[i]);
    }
    assert(a =~= b);
}

/// The squares a legal move touches are on the board and distinct, and the squares it empties
/// or fills hold what the move expects.
pub proof fn lemma_move_shape(g: Grid, check: bool, en_passant: Option<Position>, s: Position, t: Position)
    requires
        grid_wf(g),
        grid_cols(g) <= usize::MAX,
        can_move(g, check, en_passant, s, t),
    ensures
        !(s.row == t.row && s.col == t.col),
        !at(g, s)->0.is_pawn() ==> !takes_en_passant(g, s, t),
        takes_en_passant(g, s, t) ==> {
            let k = capture_square(g, s, t);
            &&& pos_on_grid(g, k)
            &&& !(k.row == s.row && k.col == s.col)
            &&& !(k.row == t.row && k.col == t.col)
        },
        !takes_en_passant(g, s, t) ==> capture_square(g, s, t) == t,
        rook_shift(g, s, t) matches Some((rf, rt)) ==> {
            &&& pos_on_grid(g, rf)
            &&& pos_on_grid(g, rt)
            &&& rf.row == s.row && rt.row == s.row && t.row == s.row
            &&& rf.col != s.col && rf.col != t.col && rf.col != rt.col
            &&& rt.col != s.col && rt.col != t.col
            &&& unmoved_rook(g, rf.row as int, rf.col as int, at(g, s)->0.color())
            &&& at(g, rt) is None
            &&& at(g, t) is None
            &&& !takes_en_passant(g, s, t)
        },
{
    if rook_shift(g, s, t) is Some {
        if let Piece::King(k) = at(g, s)->0 {
            assert(castles(
                g,
                s.row as int,
                s.col as int,
                k.color,
                k.move_count,
                check,
                t.row as int,
                t.col as int,
            ));
        }
    }
}

/// What a legal move leaves on each square.
pub proof fn lemma_moved_cells(g: Grid, check: bool, en_passant: Option<Position>, s: Position, t: Position)
    requires
        grid_wf(g),
        grid_cols(g) <= usize::MAX,
        can_move(g, check, en_passant, s, t),
    ensures
        grid_wf(moved_grid(g, s, t)),
        grid_rows(moved_grid(g, s, t)) == grid_rows(g),
        grid_cols(moved_grid(g, s, t)) == grid_cols(g),
        forall|i: int, j: int|
            on_grid(g, i, j) ==> #[trigger] cell(moved_grid(g, s, t), i, j) == if i == t.row && j
                == t.col {
                Some(bumped(at(g, s)->0))
            } else if i == s.row && j == s.col {
                None
            } else if takes_en_passant(g, s, t) && i == capture_square(g, s, t).row && j
                == capture_square(g, s, t).col {
                None
            } else if rook_shift(g, s, t) is Some && i == rook_from(g, s, t).row && j == rook_from(
                g,
                s,
                t,
            ).col {
                None
            } else if rook_shift(g, s, t) is Some && i == rook_to(g, s, t).row && j == rook_to(
                g,
                s,
                t,
            ).col {
                Some(bumped(at(g, rook_from(g, s, t))->0))
            } else {
                cell(g, i, j)
            },
{
    lemma_move_shape(g, check, en_passant, s, t);
    let p = at(g, s)->0;
    let g1 = put(g, s, None);
    lemma_put(g, s, None);
    let g2 = put(g1, t, None);
    lemma_put(g1, t, None);
    let g3 = if takes_en_passant(g, s, t) {
        put(g2, capture_square(g, s, t), None)
    } else {
        g2
    };
    if takes_en_passant(g, s, t) {
        lemma_put(g2, capture_square(g, s, t), None);
    }
    let g4 = put(g3, t, Some(bumped(p)));
    lemma_put(g3, t, Some(bumped(p)));
    if let Some((rf, rt)) = rook_shift(g, s, t) {
        let g5 = put(g4, rf, None);
        lemma_put(g4, rf, None);
        lemma_put(g5, rt, Some(bumped(at(g4, rf)->0)));
    }
}

/// Carrying out a legal move and then taking it back restores the match exactly: the board,
/// the occupied-square index, every move counter and the capture history.
pub proof fn lemma_undo_restores(v: MatchView, s: Position, t: Position)
    requires
        grid_wf(v.grid),
        grid_cols(v.grid) <= usize::MAX,
        v.index == occupied_squares(v.grid),
        can_move(v.grid, v.check, v.en_passant, s, t),
        at(v.grid, s)->0.move_count() < u32::MAX,
    ensures
        reverted(applied(v, s, t), move_record(v.grid, s, t)) == v,
{
    let g = v.grid;
    let rec = move_record(g, s, t);
    let m = moved_grid(g, s, t);
    lemma_move_shape(g, v.check, v.en_passant, s, t);
    lemma_moved_cells(g, v.check, v.en_passant, s, t);
    let p = at(m, t)->0;
    let h1 = put(m, t, None);
    lemma_put(m, t, None);
    let h2 = put(h1, s, Some(unbumped(p)));
    lemma_put(h1, s, Some(unbumped(p)));
    let h3 = if rec.captured is Some {
        put(h2, rec.captured_at, rec.captured)
    } else {
        h2
    };
    if rec.captured is Some {
        lemma_put(h2, rec.captured_at, rec.captured);
    }
    if let Some((rf, rt)) = rec.castling {
        let h4 = put(h3, rt, None);
        lemma_put(h3, rt, None);
        lemma_put(h4, rf, Some(unbumped(at(h3, rt)->0)));
    }
    let back = reverted_grid(m, rec);
    assert forall|i: int, j: int| on_grid(back, i, j) implies #[trigger] cell(back, i, j) == cell(
        g,
        i,
        j,
    ) by {
        assert(on_grid(g, i, j));
    }
    lemma_grid_ext(back, g);
    if rec.captured is Some {
        assert(v.captured.push(rec.captured->0).drop_last() =~= v.captured);
    }
}

/// Only one king of a side comes first in reading order.
pub proof fn lemma_first_king_unique(g: Grid, color: Color, a: Position, b: Position)
    requires
        first_king(g, color, a),
        first_king(g, color, b),
    ensures
        a == b,
{
    assert(!(a.row < b.row || (a.row == b.row && a.col < b.col)) || !is_king_of(
        g,
        color,
        a.row as int,
        a.col as int,
    ));
    assert(!(b.row < a.row || (b.row == a.row && b.col < a.col)) || !is_king_of(
        g,
        color,
        b.row as int,
        b.col as int,
    ));
}

/// A legal move raises the bound on move counters by at most one.
pub proof fn lemma_moved_counts(
    g: Grid,
    check: bool,
    en_passant: Option<Position>,
    s: Position,
    t: Position,
    bound: int,
)
    requires
        grid_wf(g),
        grid_cols(g) <= usize::MAX,
        can_move(g, check, en_passant, s, t),
        counts_below(g, bound),
        bound <= u32::MAX,
    ensures
        counts_below(moved_grid(g, s, t), bound + 1),
{
    lemma_move_shape(g, check, en_passant, s, t);
    lemma_moved_cells(g, check, en_passant, s, t);
    let m = moved_grid(g, s, t);
    assert(cell(g, s.row as int, s.col as int) is Some);
    if rook_shift(g, s, t) is Some {
        let rf = rook_from(g, s, t);
        assert(cell(g, rf.row as int, rf.col as int) is Some);
    }
    assert forall|r: int, c: int| on_grid(m, r, c) && cell(m, r, c) is Some implies (#[trigger] cell(
        m,
        r,
        c,
    ))->0.move_count() < bound + 1 by {
        assert(on_grid(g, r, c));
    }
}

/// An unmoved king that the match does not mark in check is offered castling: two columns
/// toward an unmoved rook of its side three columns to its right over two empty squares, or
/// four columns to its left over three empty squares.
pub proof fn lemma_castling_offered(
    g: Grid,
    k: King,
    r0: int,
    c0: int,
    en_passant: Option<Position>,
)
    requires
        k.move_count == 0,
    ensures
        (unmoved_rook(g, r0, c0 + 3, k.color) && vacant(g, r0, c0 + 1) && vacant(g, r0, c0 + 2))
            ==> Piece::King(k).reaches(g, r0, c0, false, en_passant, r0, c0 + 2),
        (unmoved_rook(g, r0, c0 - 4, k.color) && vacant(g, r0, c0 - 1) && vacant(g, r0, c0 - 2)
            && vacant(g, r0, c0 - 3)) ==> Piece::King(k).reaches(
            g,
            r0,
            c0,
            false,
            en_passant,
            r0,
            c0 - 2,
        ),
{
}

/// A king or rook that has moved is never part of a castling again: the king's counter must
/// be zero, and so must the rook's.
pub proof fn lemma_moved_pieces_cannot_castle(
    g: Grid,
    k: King,
    r0: int,
    c0: int,
    check: bool,
    r: int,
    c: int,
)
    ensures
        k.move_count > 0 ==> !castles(g, r0, c0, k.color, k.move_count, check, r, c),
        castles(g, r0, c0, k.color, k.move_count, check, r, c) ==> (c == c0 + 2 ==> cell(
            g,
            r0,
            c0 + 3,
        )->0.move_count() == 0) && (c == c0 - 2 ==> cell(g, r0, c0 - 4)->0.move_count() == 0),
{
}

/// A legal move raises the moved piece's counter by one, and a castling rook's from zero to
/// one; neither counter is zero afterwards, so moving the piece back never restores castling.
pub proof fn lemma_move_counts_up(v: MatchView, s: Position, t: Position)
    requires
        grid_wf(v.grid),
        grid_cols(v.grid) <= usize::MAX,
        can_move(v.grid, v.check, v.en_passant, s, t),
        at(v.grid, s)->0.move_count() < u32::MAX,
    ensures
        at(committed(v, s, t).grid, t) == Some(bumped(at(v.grid, s)->0)),
        at(committed(v, s, t).grid, t)->0.move_count() == at(v.grid, s)->0.move_count() + 1,
        rook_shift(v.grid, s, t) is Some ==> {
            &&& at(v.grid, rook_from(v.grid, s, t))->0.move_count() == 0
            &&& at(committed(v, s, t).grid, rook_to(v.grid, s, t))->0.move_count() == 1
        },
{
    lemma_move_shape(v.grid, v.check, v.en_passant, s, t);
    lemma_moved_cells(v.grid, v.check, v.en_passant, s, t);
    assert(on_grid(v.grid, t.row as int, t.col as int));
    if rook_shift(v.grid, s, t) is Some {
        let rt = rook_to(v.grid, s, t);
        assert(on_grid(v.grid, rt.row as int, rt.col as int));
    }
}

/// After a legal move the en-passant target is the square of a pawn that has just advanced two
/// rows; any other move clears it.
pub proof fn lemma_en_passant_window(v: MatchView, s: Position, t: Position)
    requires
        grid_wf(v.grid),
        grid_cols(v.grid) <= usize::MAX,
        can_move(v.grid, v.check, v.en_passant, s, t),
    ensures
        (at(v.grid, s)->0.is_pawn() && dist(s.row as int, t.row as int) == 2) ==> committed(
            v,
            s,
            t,
        ).en_passant == Some(t),
        !(at(v.grid, s)->0.is_pawn() && dist(s.row as int, t.row as int) == 2) ==> committed(
            v,
            s,
            t,
        ).en_passant is None,
{
    lemma_moved_cells(v.grid, v.check, v.en_passant, s, t);
    assert(on_grid(v.grid, t.row as int, t.col as int));
}

} // verus!
