pub mod chess_position;
pub mod color;
pub mod pieces;
pub mod rules;

use vstd::prelude::*;

use crate::board::piece::Piece;
use crate::board::position::Position;
use crate::chess::pieces::{mat, mat_shape};
use crate::board::{vacant, at, cell, grid_cols, grid_rows, grid_wf, on_grid, pos_on_grid, Board};
use crate::chess::chess_position::{square_text, trimmed, ChessPosition};
use crate::chess::color::Color;
use crate::chess::pieces::bishop::Bishop;
use crate::chess::pieces::king::King;
use crate::chess::pieces::knight::Knight;
use crate::chess::pieces::pawn::Pawn;
use crate::chess::pieces::queen::Queen;
use crate::chess::pieces::rook::Rook;
use crate::chess::rules::{
    attacked_by, back_rank, checkmate, initial_cell, committed, counts_below, escapes, first_king, has_king,
    has_moves, in_check, is_king_of, lemma_first_king_unique, lemma_moved_counts, moved_grid,
    move_error, opposite, applied, can_move, lemma_move_shape, lemma_moved_cells, lemma_put, lemma_undo_restores,
    move_record, occupied_squares, put, reverted, reverted_grid, valid_match, MatchView, MoveRecord,
};
use crate::error::{ChessError, ChessErrorKind};
use crate::network::{of_color, shows_all, shows_cell, views_of_color, GameMessage, PieceView};

verus! {

/// A match: the board, whose turn it is, the check marks, the pawn open to en passant, an index
/// of the occupied squares and the pieces taken so far.
pub struct ChessMatch {
    board: Board,
    turn: u32,
    current_player: Color,
    check: bool,
    check_mate: bool,
    en_passant_vulnerable: Option<Position>,
    pieces_on_board: Vec<Position>,
    captured_pieces: Vec<Piece>,
}

impl View for ChessMatch {
    type V = MatchView;

    closed spec fn view(&self) -> MatchView {
        MatchView {
            grid: self.board@,
            turn: self.turn,
            current_player: self.current_player,
            check: self.check,
            check_mate: self.check_mate,
            en_passant: self.en_passant_vulnerable,
            index: self.pieces_on_board@.to_set(),
            captured: self.captured_pieces@,
        }
    }
}

/// Drops `p` from an index without duplicates.
fn index_remove(index: &mut Vec<Position>, p: Position)
    requires
        old(index)@.no_duplicates(),
    ensures
        final(index)@.no_duplicates(),
        forall|q: Position| #[trigger]
            final(index)@.contains(q) <==> (old(index)@.contains(q) && q != p),
{
    let mut i: usize = 0;
    while i < index.len()
        invariant
            index@ == old(index)@,
            index@.no_duplicates(),
            0 <= i <= index@.len(),
            forall|k: int| 0 <= k < i ==> index@[k] != p,
        decreases index@.len() - i,
    {
        if index[i] == p {
            let ghost before = index@;
            index.remove(i);
            assert forall|k: int| 0 <= k < index@.len() implies #[trigger] index@[k] == (if k < i {
                before[k]
            } else {
                before[k + 1]
            }) by {}
            assert forall|q: Position| #[trigger]
                index@.contains(q) <==> (before.contains(q) && q != p) by {
                if before.contains(q) && q != p {
                    let k = choose|k: int| 0 <= k < before.len() && before[k] == q;
                    if k < i {
                        assert(index@[k] == q);
                    } else {
                        assert(k != i);
                        assert(index@[k - 1] == q);
                    }
                }
                if index@.contains(q) {
                    let k = choose|k: int| 0 <= k < index@.len() && index@[k] == q;
                    if k < i {
                        assert(before[k] == q);
                        assert(before[i as int] == p);
                    } else {
                        assert(before[k + 1] == q);
                        assert(before[i as int] == p);
                    }
                }
            }
            assert forall|a: int, b: int|
                0 <= a < index@.len() && 0 <= b < index@.len() && a != b implies index@[a]
                != index@[b] by {
                let a1 = if a < i { a } else { a + 1 };
                let b1 = if b < i { b } else { b + 1 };
                assert(index@[a] == before[a1]);
                assert(index@[b] == before[b1]);
            }
            return;
        }
        i = i + 1;
    }
}

/// Adds a new square to an index without duplicates.
fn index_insert(index: &mut Vec<Position>, p: Position)
    requires
        old(index)@.no_duplicates(),
        !old(index)@.contains(p),
    ensures
        final(index)@.no_duplicates(),
        forall|q: Position| #[trigger]
            final(index)@.contains(q) <==> (old(index)@.contains(q) || q == p),
{
    index.push(p);
    assert forall|q: Position| old(index)@.contains(q) implies #[trigger] index@.contains(q) by {
        let k = choose|k: int| 0 <= k < old(index)@.len() && old(index)@[k] == q;
        assert(index@[k] == q);
    }
    assert forall|q: Position| #[trigger] index@.contains(q) implies (old(index)@.contains(q) || q
        == p) by {
        let k = choose|k: int| 0 <= k < index@.len() && index@[k] == q;
        if k < old(index)@.len() {
            assert(old(index)@[k] == q);
        }
    }
    assert(index@[index@.len() - 1] == p);
}

impl ChessMatch {
    /// The board is 8 by 8 and the index names each occupied square exactly once.
    pub closed spec fn wf(&self) -> bool {
        &&& self.board.wf()
        &&& grid_rows(self.board@) == 8
        &&& grid_cols(self.board@) == 8
        &&& self.pieces_on_board@.no_duplicates()
        &&& forall|q: Position| #[trigger]
            self.pieces_on_board@.contains(q) <==> (pos_on_grid(self.board@, q) && at(
                self.board@,
                q,
            ) is Some)
    }

    /// A match in a state that the rules allow.
    pub open spec fn inv(&self) -> bool {
        self.wf() && valid_match(self@)
    }

    proof fn lemma_index(&self)
        requires
            self.wf(),
        ensures
            self@.index == occupied_squares(self@.grid),
            grid_wf(self@.grid),
            grid_rows(self@.grid) == 8,
            grid_cols(self@.grid) == 8,
    {
        self.board.lemma_wf();
        assert(self@.index =~= occupied_squares(self@.grid));
    }

    /// Empties a square of the board and drops it from the index.
    fn take_square(&mut self, p: Position) -> (r: Option<Piece>)
        requires
            old(self).wf(),
            pos_on_grid(old(self)@.grid, p),
        ensures
            final(self).wf(),
            r == at(old(self)@.grid, p),
            final(self)@.grid == put(old(self)@.grid, p, None),
            final(self)@.turn == old(self)@.turn,
            final(self)@.current_player == old(self)@.current_player,
            final(self)@.check == old(self)@.check,
            final(self)@.check_mate == old(self)@.check_mate,
            final(self)@.en_passant == old(self)@.en_passant,
            final(self)@.captured == old(self)@.captured,
    {
        let r = self.board.remove_piece(p);
        index_remove(&mut self.pieces_on_board, p);
        proof {
            old(self).board.lemma_wf();
            lemma_put(old(self)@.grid, p, None);
        }
        r
    }

    /// Puts a piece on an empty square of the board and adds it to the index.
    fn put_square(&mut self, piece: Piece, p: Position)
        requires
            old(self).wf(),
            pos_on_grid(old(self)@.grid, p),
            at(old(self)@.grid, p) is None,
        ensures
            final(self).wf(),
            final(self)@.grid == put(old(self)@.grid, p, Some(piece)),
            final(self)@.turn == old(self)@.turn,
            final(self)@.current_player == old(self)@.current_player,
            final(self)@.check == old(self)@.check,
            final(self)@.check_mate == old(self)@.check_mate,
            final(self)@.en_passant == old(self)@.en_passant,
            final(self)@.captured == old(self)@.captured,
    {
        let _ = self.board.place_piece(piece, p);
        index_insert(&mut self.pieces_on_board, p);
        proof {
            old(self).board.lemma_wf();
            lemma_put(old(self)@.grid, p, Some(piece));
        }
    }
}

impl ChessMatch {
    /// Carries out a move on the board, the index and the capture history, and says how to
    /// take it back.
    fn make_move(&mut self, source: Position, target: Position) -> (rec: MoveRecord)
        requires
            old(self).wf(),
            can_move(old(self)@.grid, old(self)@.check, old(self)@.en_passant, source, target),
            at(old(self)@.grid, source)->0.move_count() < u32::MAX,
        ensures
            final(self).wf(),
            final(self)@ == applied(old(self)@, source, target),
            rec == move_record(old(self)@.grid, source, target),
    {
        let ghost g = self@.grid;
        proof {
            self.lemma_index();
            lemma_move_shape(g, self@.check, self@.en_passant, source, target);
        }
        let mut piece = self.take_square(source).unwrap();
        piece.increase_move_count();
        let direct = self.take_square(target);
        let mut captured = direct;
        let mut captured_at = target;
        if piece.is_pawn() && source.col != target.col && direct.is_none() {
            captured_at = if piece.color().is_white() {
                Position::new(target.row + 1, target.col)
            } else {
                Position::new(target.row - 1, target.col)
            };
            proof {
                lemma_put(g, source, None);
                lemma_put(put(g, source, None), target, None);
            }
            captured = self.take_square(captured_at);
        }
        proof {
            lemma_put(g, source, None);
            lemma_put(put(g, source, None), target, None);
            if captured_at != target {
                lemma_put(put(put(g, source, None), target, None), captured_at, None);
            }
        }
        self.put_square(piece, target);
        let mut castling: Option<(Position, Position)> = None;
        if piece.is_king() && ((target.col > source.col && target.col - source.col == 2) || (
        source.col > target.col && source.col - target.col == 2)) {
            let (rf, rt) = if target.col > source.col {
                (Position::new(source.row, source.col + 3), Position::new(source.row, source.col + 1))
            } else {
                (Position::new(source.row, source.col - 4), Position::new(source.row, source.col - 1))
            };
            let ghost g4 = self@.grid;
            proof {
                lemma_put(put(put(g, source, None), target, None), target, Some(piece));
            }
            let mut rook = self.take_square(rf).unwrap();
            rook.increase_move_count();
            proof {
                lemma_put(g4, rf, None);
            }
            self.put_square(rook, rt);
            castling = Some((rf, rt));
        }
        if let Some(cp) = captured {
            self.captured_pieces.push(cp);
        }
        proof {
            self.lemma_index();
        }
        MoveRecord { source, target, captured, captured_at, castling }
    }

    /// Takes back a move that `make_move` carried out on the match `before`.
    fn undo_move(&mut self, rec: MoveRecord, before: Ghost<MatchView>)
        requires
            old(self).wf(),
            grid_wf(before@.grid),
            grid_cols(before@.grid) == 8,
            before@.index == occupied_squares(before@.grid),
            can_move(before@.grid, before@.check, before@.en_passant, rec.source, rec.target),
            rec == move_record(before@.grid, rec.source, rec.target),
            at(before@.grid, rec.source)->0.move_count() < u32::MAX,
            old(self)@ == applied(before@, rec.source, rec.target),
        ensures
            final(self).wf(),
            final(self)@ == before@,
    {
        let ghost g = before@.grid;
        let ghost m = self@.grid;
        let (source, target) = (rec.source, rec.target);
        proof {
            lemma_move_shape(g, before@.check, before@.en_passant, source, target);
            lemma_moved_cells(g, before@.check, before@.en_passant, source, target);
            lemma_undo_restores(before@, source, target);
        }
        let mut piece = self.take_square(target).unwrap();
        piece.decrease_move_count();
        proof {
            lemma_put(m, target, None);
        }
        self.put_square(piece, source);
        let ghost h2 = self@.grid;
        proof {
            lemma_put(put(m, target, None), source, Some(piece));
        }
        if let Some(cp) = rec.captured {
            self.put_square(cp, rec.captured_at);
            self.captured_pieces.pop();
            proof {
                lemma_put(h2, rec.captured_at, Some(cp));
            }
        }
        let ghost h3 = self@.grid;
        if let Some((rf, rt)) = rec.castling {
            let mut rook = self.take_square(rt).unwrap();
            rook.decrease_move_count();
            proof {
                lemma_put(h3, rt, None);
            }
            self.put_square(rook, rf);
        }
        proof {
            self.lemma_index();
            assert(self@.grid == reverted_grid(m, rec));
            assert(self@.captured =~= reverted(old(self)@, rec).captured);
        }
    }
}

impl ChessMatch {
    fn opponent(&self, color: Color) -> (r: Color)
        ensures
            r == opposite(color),
    {
        if color == Color::White {
            Color::Black
        } else {
            Color::White
        }
    }

    /// The king of `color` that comes first in reading order, if the side has one.
    fn king(&self, color: Color) -> (r: Option<Position>)
        requires
            self.wf(),
        ensures
            r is None <==> !has_king(self@.grid, color),
            r matches Some(k) ==> first_king(self@.grid, color, k),
    {
        let ghost g = self@.grid;
        proof {
            self.lemma_index();
        }
        let mut r: usize = 0;
        while r < 8
            invariant
                self.wf(),
                g == self@.grid,
                grid_rows(g) == 8,
                grid_cols(g) == 8,
                r <= 8,
                forall|i: int, j: int| i < r ==> !#[trigger] is_king_of(g, color, i, j),
            decreases 8 - r,
        {
            let mut c: usize = 0;
            while c < 8
                invariant
                    self.wf(),
                    g == self@.grid,
                    grid_rows(g) == 8,
                    grid_cols(g) == 8,
                    r < 8,
                    c <= 8,
                    forall|i: int, j: int|
                        (i < r || (i == r && j < c)) ==> !#[trigger] is_king_of(g, color, i, j),
                decreases 8 - c,
            {
                let p = Position::new(r, c);
                let found = match self.board.piece(p) {
                    Some(q) => q.is_king() && q.color() == color,
                    None => false,
                };
                if found {
                    assert(is_king_of(g, color, r as int, c as int));
                    return Some(p);
                }
                c = c + 1;
            }
            r = r + 1;
        }
        proof {
            assert forall|i: int, j: int| !#[trigger] is_king_of(g, color, i, j) by {
                if is_king_of(g, color, i, j) {
                    assert(i < 8);
                }
            }
        }
        None
    }

    /// The squares of the pieces of `color`, read from the index.
    fn pieces_of(&self, color: Color) -> (r: Vec<Position>)
        requires
            self.wf(),
        ensures
            forall|q: Position| #[trigger]
                r@.contains(q) <==> (pos_on_grid(self@.grid, q) && at(self@.grid, q) is Some && at(
                    self@.grid,
                    q,
                )->0.color() == color),
    {
        let ghost g = self@.grid;
        let mut r: Vec<Position> = Vec::new();
        let mut i: usize = 0;
        while i < self.pieces_on_board.len()
            invariant
                self.wf(),
                g == self@.grid,
                i <= self.pieces_on_board@.len(),
                forall|q: Position| #[trigger]
                    r@.contains(q) ==> (pos_on_grid(g, q) && at(g, q) is Some && at(g, q)->0.color()
                        == color),
                forall|k: int|
                    0 <= k < i && at(g, #[trigger] self.pieces_on_board@[k])->0.color() == color
                        ==> r@.contains(self.pieces_on_board@[k]),
            decreases self.pieces_on_board@.len() - i,
        {
            let q = self.pieces_on_board[i];
            assert(self.pieces_on_board@.contains(q));
            let ours = match self.board.piece(q) {
                Some(p) => p.color() == color,
                None => false,
            };
            if ours {
                let ghost before = r@;
                r.push(q);
                assert forall|x: Position| #[trigger] r@.contains(x) implies (pos_on_grid(g, x)
                    && at(g, x) is Some && at(g, x)->0.color() == color) by {
                    if x != q {
                        let k = choose|k: int| 0 <= k < r@.len() && r@[k] == x;
                        assert(before[k] == x);
                        assert(before.contains(x));
                    } else {
                        assert(pos_on_grid(g, q));
                    }
                }
                assert forall|k: int|
                    0 <= k < i + 1 && at(g, #[trigger] self.pieces_on_board@[k])->0.color()
                        == color implies r@.contains(self.pieces_on_board@[k]) by {
                    if k < i {
                        let x = self.pieces_on_board@[k];
                        let j = choose|j: int| 0 <= j < before.len() && before[j] == x;
                        assert(r@[j] == x);
                    } else {
                        assert(r@[r@.len() - 1] == q);
                    }
                }
            }
            i = i + 1;
        }
        proof {
            assert forall|q: Position|
                (pos_on_grid(g, q) && at(g, q) is Some && at(g, q)->0.color() == color) implies #[trigger]
                r@.contains(q) by {
                assert(self.pieces_on_board@.contains(q));
                let k = choose|k: int|
                    0 <= k < self.pieces_on_board@.len() && self.pieces_on_board@[k] == q;
            }
        }
        r
    }

    /// The reachability matrix of the piece on `position`.
    fn calculate_possible_moves(&self, position: Position) -> (m: Vec<Vec<bool>>)
        requires
            self.wf(),
            pos_on_grid(self@.grid, position),
            at(self@.grid, position) is Some,
        ensures
            mat_shape(&m, self@.grid),
            forall|r: int, c: int|
                on_grid(self@.grid, r, c) ==> mat(&m, r, c) == at(self@.grid, position)->0.reaches(
                    self@.grid,
                    position.row as int,
                    position.col as int,
                    self@.check,
                    self@.en_passant,
                    r,
                    c,
                ),
    {
        match self.board.piece(position) {
            Some(p) => p.possible_moves(
                &self.board,
                position,
                self.check,
                self.en_passant_vulnerable,
            ),
            None => Vec::new(),
        }
    }

    /// Whether side `color` is in check.
    fn test_check(&self, color: Color) -> (r: bool)
        requires
            self.wf(),
        ensures
            r == in_check(self@.grid, self@.check, self@.en_passant, color),
    {
        let ghost g = self@.grid;
        let ghost (chk, ep) = (self@.check, self@.en_passant);
        proof {
            self.lemma_index();
        }
        let k = match self.king(color) {
            None => {
                return true;
            },
            Some(k) => k,
        };
        let opponent = self.opponent(color);
        let attackers = self.pieces_of(opponent);
        let mut i: usize = 0;
        while i < attackers.len()
            invariant
                self.wf(),
                g == self@.grid,
                chk == self@.check,
                ep == self@.en_passant,
                grid_rows(g) == 8,
                grid_cols(g) == 8,
                first_king(g, color, k),
                opponent == opposite(color),
                i <= attackers@.len(),
                forall|q: Position| #[trigger]
                    attackers@.contains(q) <==> (pos_on_grid(g, q) && at(g, q) is Some && at(
                        g,
                        q,
                    )->0.color() == opponent),
                forall|j: int| 0 <= j < i ==> !can_move(g, chk, ep, #[trigger] attackers@[j], k),
            decreases attackers@.len() - i,
        {
            let a = attackers[i];
            assert(attackers@.contains(a));
            let m = self.calculate_possible_moves(a);
            assert(mat(&m, k.row as int, k.col as int) == at(g, a)->0.reaches(
                g,
                a.row as int,
                a.col as int,
                chk,
                ep,
                k.row as int,
                k.col as int,
            ));
            if m[k.row][k.col] {
                proof {
                    assert(can_move(g, chk, ep, a, k));
                    assert(attacked_by(g, chk, ep, opposite(color), k));
                }
                return true;
            }
            i = i + 1;
        }
        proof {
            assert forall|k2: Position| #[trigger] first_king(g, color, k2) implies !attacked_by(
                g,
                chk,
                ep,
                opposite(color),
                k2,
            ) by {
                lemma_first_king_unique(g, color, k, k2);
                assert forall|s: Position| !(#[trigger] can_move(g, chk, ep, s, k2) && at(
                    g,
                    s,
                )->0.color() == opposite(color)) by {
                    if can_move(g, chk, ep, s, k2) && at(g, s)->0.color() == opposite(color) {
                        assert(attackers@.contains(s));
                        let j = choose|j: int| 0 <= j < attackers@.len() && attackers@[j] == s;
                    }
                }
            }
            assert(is_king_of(g, color, k.row as int, k.col as int));
        }
        false
    }
}

impl ChessMatch {
    /// Whether side `color` is checkmated: in check, and every move of every one of its pieces,
    /// tried and taken back, leaves it in check. The match is the same afterwards.
    fn test_check_mate(&mut self, color: Color) -> (r: bool)
        requires
            old(self).wf(),
            counts_below(old(self)@.grid, u32::MAX as int),
        ensures
            final(self).wf(),
            final(self)@ == old(self)@,
            r == checkmate(old(self)@.grid, old(self)@.check, old(self)@.en_passant, color),
    {
        let ghost v0 = self@;
        let ghost g = v0.grid;
        let ghost (chk, ep) = (v0.check, v0.en_passant);
        proof {
            self.lemma_index();
        }
        if !self.test_check(color) {
            return false;
        }
        let pieces = self.pieces_of(color);
        let mut i: usize = 0;
        while i < pieces.len()
            invariant
                self.wf(),
                self@ == v0,
                v0 == old(self)@,
                g == v0.grid,
                chk == v0.check,
                ep == v0.en_passant,
                v0.index == occupied_squares(g),
                grid_wf(g),
                grid_rows(g) == 8,
                grid_cols(g) == 8,
                counts_below(g, u32::MAX as int),
                i <= pieces@.len(),
                forall|q: Position| #[trigger]
                    pieces@.contains(q) <==> (pos_on_grid(g, q) && at(g, q) is Some && at(
                        g,
                        q,
                    )->0.color() == color),
                forall|j: int, t: Position|
                    0 <= j < i && #[trigger] can_move(g, chk, ep, pieces@[j], t) ==> in_check(
                        moved_grid(g, pieces@[j], t),
                        chk,
                        ep,
                        color,
                    ),
            decreases pieces@.len() - i,
        {
            let src = pieces[i];
            assert(pieces@.contains(src));
            assert(cell(g, src.row as int, src.col as int) is Some);
            let m = self.calculate_possible_moves(src);
            let mut r: usize = 0;
            while r < 8
                invariant
                    self.wf(),
                    self@ == v0,
                    v0 == old(self)@,
                    g == v0.grid,
                    chk == v0.check,
                    ep == v0.en_passant,
                    v0.index == occupied_squares(g),
                    grid_wf(g),
                    grid_rows(g) == 8,
                    grid_cols(g) == 8,
                    counts_below(g, u32::MAX as int),
                    pos_on_grid(g, src),
                    at(g, src) is Some,
                    at(g, src)->0.color() == color,
                    at(g, src)->0.move_count() < u32::MAX,
                    mat_shape(&m, g),
                    forall|a: int, b: int|
                        on_grid(g, a, b) ==> mat(&m, a, b) == at(g, src)->0.reaches(
                            g,
                            src.row as int,
                            src.col as int,
                            chk,
                            ep,
                            a,
                            b,
                        ),
                    r <= 8,
                    forall|t: Position|
                        t.row < r && #[trigger] can_move(g, chk, ep, src, t) ==> in_check(
                            moved_grid(g, src, t),
                            chk,
                            ep,
                            color,
                        ),
                decreases 8 - r,
            {
                let mut c: usize = 0;
                while c < 8
                    invariant
                        self.wf(),
                        self@ == v0,
                        v0 == old(self)@,
                        g == v0.grid,
                        chk == v0.check,
                        ep == v0.en_passant,
                        v0.index == occupied_squares(g),
                        grid_wf(g),
                        grid_rows(g) == 8,
                        grid_cols(g) == 8,
                        pos_on_grid(g, src),
                        at(g, src) is Some,
                        at(g, src)->0.color() == color,
                        at(g, src)->0.move_count() < u32::MAX,
                        mat_shape(&m, g),
                        forall|a: int, b: int|
                            on_grid(g, a, b) ==> mat(&m, a, b) == at(g, src)->0.reaches(
                                g,
                                src.row as int,
                                src.col as int,
                                chk,
                                ep,
                                a,
                                b,
                            ),
                        r < 8,
                        c <= 8,
                        forall|t: Position|
                            (t.row < r || (t.row == r && t.col < c)) && #[trigger] can_move(
                                g,
                                chk,
                                ep,
                                src,
                                t,
                            ) ==> in_check(moved_grid(g, src, t), chk, ep, color),
                    decreases 8 - c,
                {
                    let tgt = Position::new(r, c);
                    assert(mat(&m, r as int, c as int) == can_move(g, chk, ep, src, tgt));
                    if m[r][c] {
                        let rec = self.make_move(src, tgt);
                        let still = self.test_check(color);
                        self.undo_move(rec, Ghost(v0));
                        if !still {
                            assert(escapes(g, chk, ep, color, src, tgt));
                            return false;
                        }
                    }
                    c = c + 1;
                }
                r = r + 1;
            }
            i = i + 1;
        }
        proof {
            assert forall|s: Position, t: Position| !#[trigger] escapes(g, chk, ep, color, s, t) by {
                if escapes(g, chk, ep, color, s, t) {
                    assert(pieces@.contains(s));
                    let j = choose|j: int| 0 <= j < pieces@.len() && pieces@[j] == s;
                    assert(can_move(g, chk, ep, pieces@[j], t));
                }
            }
        }
        true
    }

    /// Whether any square is marked.
    fn any_marked(m: &Vec<Vec<bool>>, g: Ghost<crate::board::Grid>) -> (r: bool)
        requires
            mat_shape(m, g@),
            grid_rows(g@) == 8,
            grid_cols(g@) == 8,
        ensures
            r == exists|a: int, b: int| on_grid(g@, a, b) && #[trigger] mat(m, a, b),
    {
        let mut r: usize = 0;
        while r < 8
            invariant
                mat_shape(m, g@),
                grid_rows(g@) == 8,
                grid_cols(g@) == 8,
                r <= 8,
                forall|a: int, b: int| 0 <= a < r && 0 <= b < 8 ==> !#[trigger] mat(m, a, b),
            decreases 8 - r,
        {
            let mut c: usize = 0;
            while c < 8
                invariant
                    mat_shape(m, g@),
                    grid_rows(g@) == 8,
                    grid_cols(g@) == 8,
                    r < 8,
                    c <= 8,
                    forall|a: int, b: int|
                        (0 <= a < r && 0 <= b < 8) || (a == r && 0 <= b < c) ==> !#[trigger] mat(
                            m,
                            a,
                            b,
                        ),
                decreases 8 - c,
            {
                if m[r][c] {
                    assert(on_grid(g@, r as int, c as int) && mat(m, r as int, c as int));
                    return true;
                }
                c = c + 1;
            }
            r = r + 1;
        }
        false
    }

    /// The piece on the source square exists, belongs to the side to move, and can move.
    fn validate_source_position(&self, position: Position) -> (r: Result<(), ChessError>)
        requires
            self.wf(),
            pos_on_grid(self@.grid, position),
        ensures
            r matches Err(e) ==> Some(e.0) == (if at(self@.grid, position) is None {
                Some(ChessErrorKind::NoPieceAtSource)
            } else if at(self@.grid, position)->0.color() != self@.current_player {
                Some(ChessErrorKind::NotYourPiece)
            } else if !has_moves(self@.grid, self@.check, self@.en_passant, position) {
                Some(ChessErrorKind::NoLegalMoves)
            } else {
                None
            }),
            r is Ok <==> (at(self@.grid, position) is Some && at(self@.grid, position)->0.color()
                == self@.current_player && has_moves(
                self@.grid,
                self@.check,
                self@.en_passant,
                position,
            )),
    {
        let ghost g = self@.grid;
        proof {
            self.lemma_index();
        }
        match self.board.piece(position) {
            Some(piece) => {
                if self.current_player != piece.color() {
                    return Err(ChessError(ChessErrorKind::NotYourPiece));
                }
                let m = self.calculate_possible_moves(position);
                let any = Self::any_marked(&m, Ghost(g));
                proof {
                    if any {
                        let (a, b) = choose|a: int, b: int| on_grid(g, a, b) && #[trigger] mat(
                            &m,
                            a,
                            b,
                        );
                        let t = Position { row: a as usize, col: b as usize };
                        assert(can_move(g, self@.check, self@.en_passant, position, t));
                    } else {
                        assert forall|t: Position| !#[trigger] can_move(
                            g,
                            self@.check,
                            self@.en_passant,
                            position,
                            t,
                        ) by {
                            if can_move(g, self@.check, self@.en_passant, position, t) {
                                assert(mat(&m, t.row as int, t.col as int));
                            }
                        }
                    }
                }
                if !any {
                    return Err(ChessError(ChessErrorKind::NoLegalMoves));
                }
                Ok(())
            },
            None => Err(ChessError(ChessErrorKind::NoPieceAtSource)),
        }
    }

    /// The piece on `source` can reach `target`.
    fn validate_target_position(&self, source: Position, target: Position) -> (r: Result<
        (),
        ChessError,
    >)
        requires
            self.wf(),
            pos_on_grid(self@.grid, source),
            pos_on_grid(self@.grid, target),
            at(self@.grid, source) is Some,
        ensures
            r is Ok <==> can_move(self@.grid, self@.check, self@.en_passant, source, target),
            r matches Err(e) ==> e.0 == ChessErrorKind::IllegalTarget,
    {
        let m = self.calculate_possible_moves(source);
        assert(mat(&m, target.row as int, target.col as int) == can_move(
            self@.grid,
            self@.check,
            self@.en_passant,
            source,
            target,
        ));
        if !m[target.row][target.col] {
            return Err(ChessError(ChessErrorKind::IllegalTarget));
        }
        Ok(())
    }

    fn next_turn(&mut self)
        requires
            old(self).turn < u32::MAX,
        ensures
            final(self).turn == old(self).turn + 1,
            final(self).current_player == opposite(old(self).current_player),
            final(self).board == old(self).board,
            final(self).check == old(self).check,
            final(self).check_mate == old(self).check_mate,
            final(self).en_passant_vulnerable == old(self).en_passant_vulnerable,
            final(self).pieces_on_board == old(self).pieces_on_board,
            final(self).captured_pieces == old(self).captured_pieces,
    {
        self.turn = self.turn + 1;
        self.current_player = self.opponent(self.current_player);
    }
}

impl ChessMatch {
    /// Plays a move for the side to move. On success the captured piece, if any, comes back;
    /// on any refusal the match is left exactly as it was.
    pub fn perform_chess_move(&mut self, source: ChessPosition, target: ChessPosition) -> (r:
        Result<Option<Piece>, ChessError>)
        requires
            old(self).inv(),
            source.is_valid(),
            old(self)@.turn < u32::MAX,
        ensures
            final(self).inv(),
            r is Err <==> move_error(old(self)@, source.square(), target) is Some,
            r matches Err(e) ==> move_error(old(self)@, source.square(), target) == Some(e.0)
                && final(self)@ == old(self)@,
            r matches Ok(captured) ==> {
                &&& captured == move_record(old(self)@.grid, source.square(), target.square()).captured
                &&& final(self)@ == committed(old(self)@, source.square(), target.square())
            },
    {
        let ghost v0 = self@;
        proof {
            self.lemma_index();
        }
        if self.check_mate {
            return Err(ChessError(ChessErrorKind::GameOver));
        }
        let s = source.to_position();
        match self.validate_source_position(s) {
            Err(e) => {
                return Err(e);
            },
            Ok(()) => {},
        }
        if !target.is_valid() {
            return Err(ChessError(ChessErrorKind::TargetOutOfBounds));
        }
        let t = target.to_position();
        match self.validate_target_position(s, t) {
            Err(e) => {
                return Err(e);
            },
            Ok(()) => {},
        }
        assert(cell(v0.grid, s.row as int, s.col as int) is Some);
        let rec = self.make_move(s, t);
        let mover = self.current_player;
        if self.test_check(mover) {
            self.undo_move(rec, Ghost(v0));
            return Err(ChessError(ChessErrorKind::SelfCheck));
        }
        let ghost a = self@;
        proof {
            lemma_moved_counts(v0.grid, v0.check, v0.en_passant, s, t, v0.turn as int);
        }
        let moved_pawn = match self.board.piece(t) {
            Some(p) => p.is_pawn(),
            None => false,
        };
        if moved_pawn && ((s.row > t.row && s.row - t.row == 2) || (t.row > s.row && t.row - s.row
            == 2)) {
            self.en_passant_vulnerable = Some(t);
        } else {
            self.en_passant_vulnerable = None;
        }
        let opponent = self.opponent(mover);
        self.check = self.test_check(opponent);
        if self.test_check_mate(opponent) {
            self.check_mate = true;
        } else {
            self.next_turn();
        }
        proof {
            self.lemma_index();
        }
        Ok(rec.captured)
    }
}

fn back_rank_piece(col: usize, color: Color) -> (r: Piece)
    ensures
        r == back_rank(col as int, color),
{
    if col == 0 || col == 7 {
        Piece::Rook(Rook::new(color))
    } else if col == 1 || col == 6 {
        Piece::Knight(Knight::new(color))
    } else if col == 2 || col == 5 {
        Piece::Bishop(Bishop::new(color))
    } else if col == 3 {
        Piece::Queen(Queen::new(color))
    } else {
        Piece::King(King::new(color))
    }
}

impl ChessMatch {
    /// A match in the standard starting position, White to move on turn 1.
    pub fn new() -> (r: Self)
        ensures
            r.inv(),
            forall|i: int, j: int| 0 <= i < 8 && 0 <= j < 8 ==> #[trigger] cell(r@.grid, i, j)
                == initial_cell(i, j),
            r@.turn == 1,
            r@.current_player == Color::White,
            !r@.check,
            !r@.check_mate,
            r@.en_passant is None,
            r@.captured.len() == 0,
    {
        let board = Board::new(8, 8).unwrap();
        let mut chess_match = ChessMatch {
            board,
            turn: 1,
            current_player: Color::White,
            check: false,
            check_mate: false,
            en_passant_vulnerable: None,
            pieces_on_board: Vec::new(),
            captured_pieces: Vec::new(),
        };
        proof {
            chess_match.board.lemma_wf();
            assert forall|q: Position| #[trigger]
                chess_match.pieces_on_board@.contains(q) <==> (pos_on_grid(
                    chess_match.board@,
                    q,
                ) && at(chess_match.board@, q) is Some) by {
                if pos_on_grid(chess_match.board@, q) {
                    assert(vacant(chess_match.board@, q.row as int, q.col as int));
                }
            }
            assert forall|i: int, j: int| 0 <= i < 8 && 0 <= j < 8 implies #[trigger] cell(
                chess_match@.grid,
                i,
                j,
            ) is None by {
                assert(on_grid(chess_match.board@, i, j));
                assert(vacant(chess_match.board@, i, j));
            }
        }
        chess_match.initial_setup();
        proof {
            chess_match.lemma_index();
            let g = chess_match@.grid;
            assert forall|i: int, j: int| on_grid(g, i, j) && cell(g, i, j) is Some implies (
            #[trigger] cell(g, i, j))->0.move_count() < 1 by {
                assert(cell(g, i, j) == initial_cell(i, j));
            }
        }
        chess_match
    }

    fn place_new_piece(&mut self, pos: ChessPosition, piece: Piece)
        requires
            old(self).wf(),
            pos.is_valid(),
            at(old(self)@.grid, pos.square()) is None,
        ensures
            final(self).wf(),
            final(self)@.grid == put(old(self)@.grid, pos.square(), Some(piece)),
            final(self)@.turn == old(self)@.turn,
            final(self)@.current_player == old(self)@.current_player,
            final(self)@.check == old(self)@.check,
            final(self)@.check_mate == old(self)@.check_mate,
            final(self)@.en_passant == old(self)@.en_passant,
            final(self)@.captured == old(self)@.captured,
    {
        proof {
            self.lemma_index();
        }
        let board_pos = pos.to_position();
        self.put_square(piece, board_pos);
    }

    /// Fills an empty board with both sides' pieces in their starting places.
    fn initial_setup(&mut self)
        requires
            old(self).wf(),
            forall|i: int, j: int| 0 <= i < 8 && 0 <= j < 8 ==> #[trigger] cell(old(self)@.grid, i, j)
                is None,
        ensures
            final(self).wf(),
            forall|i: int, j: int| 0 <= i < 8 && 0 <= j < 8 ==> #[trigger] cell(final(self)@.grid, i, j)
                == initial_cell(i, j),
            final(self)@.turn == old(self)@.turn,
            final(self)@.current_player == old(self)@.current_player,
            final(self)@.check == old(self)@.check,
            final(self)@.check_mate == old(self)@.check_mate,
            final(self)@.en_passant == old(self)@.en_passant,
            final(self)@.captured == old(self)@.captured,
    {
        let ghost v0 = self@;
        let mut col: usize = 0;
        while col < 8
            invariant
                self.wf(),
                col <= 8,
                self@.turn == v0.turn,
                self@.current_player == v0.current_player,
                self@.check == v0.check,
                self@.check_mate == v0.check_mate,
                self@.en_passant == v0.en_passant,
                self@.captured == v0.captured,
                forall|i: int, j: int|
                    0 <= i < 8 && 0 <= j < 8 ==> #[trigger] cell(self@.grid, i, j) == if j < col {
                        initial_cell(i, j)
                    } else {
                        None
                    },
            decreases 8 - col,
        {
            proof {
                self.lemma_index();
            }
            let ghost g0 = self@.grid;
            let white_back = ChessPosition::from_position(Position::new(7, col));
            self.place_new_piece(white_back, back_rank_piece(col, Color::White));
            proof {
                lemma_put(g0, Position { row: 7, col }, Some(back_rank(col as int, Color::White)));
            }
            let ghost g1 = self@.grid;
            let white_pawn = ChessPosition::from_position(Position::new(6, col));
            self.place_new_piece(white_pawn, Piece::Pawn(Pawn::new(Color::White)));
            proof {
                lemma_put(g1, Position { row: 6, col }, Some(Piece::Pawn(Pawn { color: Color::White, move_count: 0 })));
            }
            let ghost g2 = self@.grid;
            let black_back = ChessPosition::from_position(Position::new(0, col));
            self.place_new_piece(black_back, back_rank_piece(col, Color::Black));
            proof {
                lemma_put(g2, Position { row: 0, col }, Some(back_rank(col as int, Color::Black)));
            }
            let ghost g3 = self@.grid;
            let black_pawn = ChessPosition::from_position(Position::new(1, col));
            self.place_new_piece(black_pawn, Piece::Pawn(Pawn::new(Color::Black)));
            proof {
                lemma_put(g3, Position { row: 1, col }, Some(Piece::Pawn(Pawn { color: Color::Black, move_count: 0 })));
            }
            col = col + 1;
        }
    }

    pub fn get_current_player(&self) -> (r: Color)
        ensures
            r == self@.current_player,
    {
        self.current_player
    }

    pub fn get_en_passant_vulnerable(&self) -> (r: Option<Position>)
        ensures
            r == self@.en_passant,
    {
        self.en_passant_vulnerable
    }

    pub fn get_turn(&self) -> (r: u32)
        ensures
            r == self@.turn,
    {
        self.turn
    }

    /// Whether the side to move was left in check by the last move.
    pub fn check(&self) -> (r: bool)
        ensures
            r == self@.check,
    {
        self.check
    }

    /// Whether the match has ended in checkmate.
    pub fn check_mate(&self) -> (r: bool)
        ensures
            r == self@.check_mate,
    {
        self.check_mate
    }

    pub fn board(&self) -> (r: &Board)
        requires
            self.wf(),
        ensures
            r.wf(),
            r@ == self@.grid,
    {
        &self.board
    }

    /// The pieces taken so far, oldest first.
    pub fn captured_pieces(&self) -> (r: &Vec<Piece>)
        ensures
            r@ == self@.captured,
    {
        &self.captured_pieces
    }
}

impl ChessMatch {
    /// A snapshot of the match for the players: every square's piece, whose turn it is, the
    /// check marks, a message, and the pieces each side has taken.
    pub fn to_game_state(&self, message: String) -> (r: GameMessage)
        requires
            self.wf(),
        ensures
            match r {
                GameMessage::GameState {
                    board,
                    turn_color,
                    is_check,
                    is_check_mate,
                    message: m,
                    captured_by_white,
                    captured_by_black,
                } => {
                    &&& board@.len() == 8
                    &&& forall|i: int| 0 <= i < 8 ==> (#[trigger] board@[i])@.len() == 8
                    &&& forall|i: int, j: int|
                        0 <= i < 8 && 0 <= j < 8 ==> shows_cell(
                            #[trigger] board@[i]@[j],
                            cell(self@.grid, i, j),
                        )
                    &&& turn_color == self@.current_player
                    &&& is_check == self@.check
                    &&& is_check_mate == self@.check_mate
                    &&& m == message
                    &&& shows_all(captured_by_white@, of_color(self@.captured, Color::Black))
                    &&& shows_all(captured_by_black@, of_color(self@.captured, Color::White))
                },
                _ => false,
            },
    {
        proof {
            self.lemma_index();
        }
        let ghost g = self@.grid;
        let mut board_view: Vec<Vec<Option<PieceView>>> = Vec::new();
        let mut r: usize = 0;
        while r < 8
            invariant
                self.wf(),
                g == self@.grid,
                grid_rows(g) == 8,
                grid_cols(g) == 8,
                r <= 8,
                board_view@.len() == r,
                forall|i: int| 0 <= i < r ==> (#[trigger] board_view@[i])@.len() == 8,
                forall|i: int, j: int|
                    0 <= i < r && 0 <= j < 8 ==> shows_cell(
                        #[trigger] board_view@[i]@[j],
                        cell(g, i, j),
                    ),
            decreases 8 - r,
        {
            let mut row: Vec<Option<PieceView>> = Vec::new();
            let mut c: usize = 0;
            while c < 8
                invariant
                    self.wf(),
                    g == self@.grid,
                    grid_rows(g) == 8,
                    grid_cols(g) == 8,
                    r < 8,
                    c <= 8,
                    row@.len() == c,
                    forall|j: int| 0 <= j < c ==> shows_cell(#[trigger] row@[j], cell(g, r as int, j)),
                decreases 8 - c,
            {
                let v = match self.board.piece(Position::new(r, c)) {
                    Some(p) => Some(PieceView::of(p)),
                    None => None,
                };
                row.push(v);
                assert forall|j: int| 0 <= j < c + 1 implies shows_cell(
                    #[trigger] row@[j],
                    cell(g, r as int, j),
                ) by {}
                c = c + 1;
            }
            board_view.push(row);
            r = r + 1;
        }
        let captured_by_white = views_of_color(&self.captured_pieces, Color::Black);
        let captured_by_black = views_of_color(&self.captured_pieces, Color::White);
        GameMessage::GameState {
            board: board_view,
            turn_color: self.current_player,
            is_check: self.check,
            is_check_mate: self.check_mate,
            message,
            captured_by_white,
            captured_by_black,
        }
    }
}

impl ChessMatch {
    /// Plays a move given as two squares in algebraic notation, such as "e2" and "e4". Text
    /// that names no square is refused with a parse error before the match is consulted.
    pub fn play_move(&mut self, source: &str, target: &str) -> (r: Result<Option<Piece>, ChessError>)
        requires
            old(self).inv(),
            old(self)@.turn < u32::MAX,
        ensures
            final(self).inv(),
            (square_text(trimmed(source@)) is Err || square_text(trimmed(target@)) is Err) ==> r
                == Err::<Option<Piece>, ChessError>(ChessError(ChessErrorKind::ParseError))
                && final(self)@ == old(self)@,
            square_text(trimmed(source@)) matches Ok(s) ==> square_text(trimmed(target@)) matches Ok(
                t,
            ) ==> {
                &&& r is Err <==> move_error(old(self)@, s.square(), t) is Some
                &&& r matches Err(e) ==> move_error(old(self)@, s.square(), t) == Some(e.0)
                    && final(self)@ == old(self)@
                &&& r matches Ok(captured) ==> {
                    &&& captured == move_record(old(self)@.grid, s.square(), t.square()).captured
                    &&& final(self)@ == committed(old(self)@, s.square(), t.square())
                }
            },
    {
        let s = match ChessPosition::parse(source) {
            Ok(p) => p,
            Err(e) => {
                return Err(e);
            },
        };
        let t = match ChessPosition::parse(target) {
            Ok(p) => p,
            Err(e) => {
                return Err(e);
            },
        };
        self.perform_chess_move(s, t)
    }
}

} // verus!
