use vstd::prelude::*;
use vstd::string::*;

use super::position::Position;
use super::{at, on_grid, pos_on_grid, Board, Grid};
use crate::chess::pieces::king::king_reaches;
use crate::chess::pieces::knight::knight_reaches;
use crate::chess::pieces::pawn::pawn_reaches;
use crate::chess::pieces::{diagonal_reaches, mat, mat_shape, orthogonal_reaches};
use crate::chess::color::Color;
use crate::chess::pieces::bishop::Bishop;
use crate::chess::pieces::king::King;
use crate::chess::pieces::knight::Knight;
use crate::chess::pieces::pawn::Pawn;
use crate::chess::pieces::queen::Queen;
use crate::chess::pieces::rook::Rook;

verus! {

/// A chess piece: one of six kinds, each carrying its color and how often it has moved.
#[derive(Debug, Clone, Copy, PartialEq, Eq, Structural)]
pub enum Piece {
    Pawn(Pawn),
    Knight(Knight),
    Bishop(Bishop),
    Rook(Rook),
    Queen(Queen),
    King(King),
}

impl Piece {
    pub open spec fn color_spec(&self) -> Color {
        match *self {
            Piece::Pawn(p) => p.color,
            Piece::Knight(p) => p.color,
            Piece::Bishop(p) => p.color,
            Piece::Rook(p) => p.color,
            Piece::Queen(p) => p.color,
            Piece::King(p) => p.color,
        }
    }

    pub open spec fn move_count_spec(&self) -> u32 {
        match *self {
            Piece::Pawn(p) => p.move_count,
            Piece::Knight(p) => p.move_count,
            Piece::Bishop(p) => p.move_count,
            Piece::Rook(p) => p.move_count,
            Piece::Queen(p) => p.move_count,
            Piece::King(p) => p.move_count,
        }
    }

    /// The same piece with another move counter.
    pub open spec fn with_move_count(self, n: u32) -> Piece {
        match self {
            Piece::Pawn(p) => Piece::Pawn(Pawn { color: p.color, move_count: n }),
            Piece::Knight(p) => Piece::Knight(Knight { color: p.color, move_count: n }),
            Piece::Bishop(p) => Piece::Bishop(Bishop { color: p.color, move_count: n }),
            Piece::Rook(p) => Piece::Rook(Rook { color: p.color, move_count: n }),
            Piece::Queen(p) => Piece::Queen(Queen { color: p.color, move_count: n }),
            Piece::King(p) => Piece::King(King { color: p.color, move_count: n }),
        }
    }

    #[verifier::when_used_as_spec(color_spec)]
    pub fn color(&self) -> (r: Color)
        ensures
            r == self.color_spec(),
    {
        match self {
            Piece::Pawn(p) => p.color,
            Piece::Knight(p) => p.color,
            Piece::Bishop(p) => p.color,
            Piece::Rook(p) => p.color,
            Piece::Queen(p) => p.color,
            Piece::King(p) => p.color,
        }
    }

    #[verifier::when_used_as_spec(move_count_spec)]
    pub fn move_count(&self) -> (r: u32)
        ensures
            r == self.move_count_spec(),
    {
        match self {
            Piece::Pawn(p) => p.move_count,
            Piece::Knight(p) => p.move_count,
            Piece::Bishop(p) => p.move_count,
            Piece::Rook(p) => p.move_count,
            Piece::Queen(p) => p.move_count,
            Piece::King(p) => p.move_count,
        }
    }

    fn set_move_count(&mut self, n: u32)
        ensures
            *final(self) == old(self).with_move_count(n),
    {
        match self {
            Piece::Pawn(p) => p.move_count = n,
            Piece::Knight(p) => p.move_count = n,
            Piece::Bishop(p) => p.move_count = n,
            Piece::Rook(p) => p.move_count = n,
            Piece::Queen(p) => p.move_count = n,
            Piece::King(p) => p.move_count = n,
        }
    }

    pub fn increase_move_count(&mut self)
        requires
            old(self).move_count() < u32::MAX,
        ensures
            *final(self) == old(self).with_move_count((old(self).move_count() + 1) as u32),
    {
        let n = self.move_count();
        self.set_move_count(n + 1);
    }

    pub fn decrease_move_count(&mut self)
        requires
            old(self).move_count() > 0,
        ensures
            *final(self) == old(self).with_move_count((old(self).move_count() - 1) as u32),
    {
        let n = self.move_count();
        self.set_move_count(n - 1);
    }

    pub open spec fn is_pawn_spec(&self) -> bool {
        *self is Pawn
    }

    pub open spec fn is_king_spec(&self) -> bool {
        *self is King
    }

    #[verifier::when_used_as_spec(is_pawn_spec)]
    pub fn is_pawn(&self) -> (r: bool)
        ensures
            r == self.is_pawn_spec(),
    {
        matches!(self, Piece::Pawn(_))
    }

    #[verifier::when_used_as_spec(is_king_spec)]
    pub fn is_king(&self) -> (r: bool)
        ensures
            r == self.is_king_spec(),
    {
        matches!(self, Piece::King(_))
    }

    /// Whether a square holds a piece of the other color.
    pub fn is_there_opponent_piece(&self, position: Position, board: &Board) -> (r: bool)
        requires
            board.wf(),
            pos_on_grid(board@, position),
        ensures
            r == (at(board@, position) matches Some(q) && q.color() != self.color()),
    {
        match board.piece(position) {
            Some(p) => p.color() != self.color(),
            None => false,
        }
    }

    /// The figurine that shows this piece.
    pub open spec fn symbol_spec(&self) -> char {
        match *self {
            Piece::Pawn(p) => if p.color == Color::White { '♙' } else { '♟' },
            Piece::Knight(p) => if p.color == Color::White { '♘' } else { '♞' },
            Piece::Bishop(p) => if p.color == Color::White { '♗' } else { '♝' },
            Piece::Rook(p) => if p.color == Color::White { '♖' } else { '♜' },
            Piece::Queen(p) => if p.color == Color::White { '♕' } else { '♛' },
            Piece::King(p) => if p.color == Color::White { '♔' } else { '♚' },
        }
    }

    pub fn symbol(&self) -> (r: char)
        ensures
            r == self.symbol_spec(),
    {
        let white = self.color().is_white();
        match self {
            Piece::Pawn(_) => if white { '♙' } else { '♟' },
            Piece::Knight(_) => if white { '♘' } else { '♞' },
            Piece::Bishop(_) => if white { '♗' } else { '♝' },
            Piece::Rook(_) => if white { '♖' } else { '♜' },
            Piece::Queen(_) => if white { '♕' } else { '♛' },
            Piece::King(_) => if white { '♔' } else { '♚' },
        }
    }
}

impl Piece {
    /// The piece on `(r0, c0)` reaches `(r, c)` under its kind's rule, ignoring whether the move
    /// would leave its own king in check. `check` is the match's check mark, and `en_passant`
    /// the square of a pawn that has just advanced two squares.
    pub open spec fn reaches(
        &self,
        g: Grid,
        r0: int,
        c0: int,
        check: bool,
        en_passant: Option<Position>,
        r: int,
        c: int,
    ) -> bool {
        match *self {
            Piece::Pawn(p) => pawn_reaches(g, r0, c0, p.color, p.move_count, en_passant, r, c),
            Piece::Knight(p) => knight_reaches(g, r0, c0, p.color, r, c),
            Piece::Bishop(p) => diagonal_reaches(g, r0, c0, p.color, r, c),
            Piece::Rook(p) => orthogonal_reaches(g, r0, c0, p.color, r, c),
            Piece::Queen(p) => orthogonal_reaches(g, r0, c0, p.color, r, c) || diagonal_reaches(
                g,
                r0,
                c0,
                p.color,
                r,
                c,
            ),
            Piece::King(p) => king_reaches(g, r0, c0, p.color, p.move_count, check, r, c),
        }
    }

    /// Every square this piece, standing on `position`, can reach; no board state changes.
    pub fn possible_moves(
        &self,
        board: &Board,
        position: Position,
        check: bool,
        en_passant: Option<Position>,
    ) -> (m: Vec<Vec<bool>>)
        requires
            board.wf(),
            pos_on_grid(board@, position),
        ensures
            mat_shape(&m, board@),
            forall|r: int, c: int|
                on_grid(board@, r, c) ==> mat(&m, r, c) == self.reaches(
                    board@,
                    position.row as int,
                    position.col as int,
                    check,
                    en_passant,
                    r,
                    c,
                ),
    {
        match self {
            Piece::Pawn(p) => p.possible_moves(board, position, en_passant),
            Piece::Knight(p) => p.possible_moves(board, position),
            Piece::Bishop(p) => p.possible_moves(board, position),
            Piece::Rook(p) => p.possible_moves(board, position),
            Piece::Queen(p) => p.possible_moves(board, position),
            Piece::King(p) => p.possible_moves(board, position, check),
        }
    }
}

impl Piece {
    /// The figurine as text.
    pub fn symbol_text(&self) -> (r: String)
        ensures
            r@ == seq![self.symbol_spec()],
    {
        let white = self.color().is_white();
        match self {
            Piece::Pawn(_) => if white {
                proof {
                    reveal_strlit("♙");
                }
                String::from_str("♙")
            } else {
                proof {
                    reveal_strlit("♟");
                }
                String::from_str("♟")
            },
            Piece::Knight(_) => if white {
                proof {
                    reveal_strlit("♘");
                }
                String::from_str("♘")
            } else {
                proof {
                    reveal_strlit("♞");
                }
                String::from_str("♞")
            },
            Piece::Bishop(_) => if white {
                proof {
                    reveal_strlit("♗");
                }
                String::from_str("♗")
            } else {
                proof {
                    reveal_strlit("♝");
                }
                String::from_str("♝")
            },
            Piece::Rook(_) => if white {
                proof {
                    reveal_strlit("♖");
                }
                String::from_str("♖")
            } else {
                proof {
                    reveal_strlit("♜");
                }
                String::from_str("♜")
            },
            Piece::Queen(_) => if white {
                proof {
                    reveal_strlit("♕");
                }
                String::from_str("♕")
            } else {
                proof {
                    reveal_strlit("♛");
                }
                String::from_str("♛")
            },
            Piece::King(_) => if white {
                proof {
                    reveal_strlit("♔");
                }
                String::from_str("♔")
            } else {
                proof {
                    reveal_strlit("♚");
                }
                String::from_str("♚")
            },
        }
    }
}

} // verus!
