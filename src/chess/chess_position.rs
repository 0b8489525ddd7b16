use vstd::prelude::*;

use crate::board::position::Position;
use crate::error::{ChessError, ChessErrorKind};

verus! {

/// A square in algebraic notation: a file letter 'a'..'h' and a rank 1..8.
#[derive(Debug, Clone, Copy, PartialEq, Eq, Structural)]
pub struct ChessPosition {
    pub col: char,
    pub row: u8,
}

/// Text with its leading and trailing white space removed.
pub uninterp spec fn trimmed(s: Seq<char>) -> Seq<char>;

/// Relies on `str::trim`: the text without leading and trailing white space; the result
/// depends on the characters alone.
#[verifier::external_body]
fn trim<'a>(s: &'a str) -> (r: &'a str)
    ensures
        r@ == trimmed(s@),
{
    s.trim()
}

/// The square that two characters name, if they name one.
pub open spec fn square_text(t: Seq<char>) -> Result<ChessPosition, ChessErrorKind> {
    if t.len() == 2 && 'a' <= t[0] <= 'h' && '1' <= t[1] <= '8' {
        Ok(ChessPosition { col: t[0], row: (t[1] as int - '0' as int) as u8 })
    } else {
        Err(ChessErrorKind::ParseError)
    }
}

impl ChessPosition {
    pub open spec fn is_valid_spec(&self) -> bool {
        'a' <= self.col <= 'h' && 1 <= self.row <= 8
    }

    /// The board address: rank 8 is row 0 and file 'a' is column 0.
    pub open spec fn square(&self) -> Position {
        Position { row: (8 - self.row) as usize, col: (self.col as int - 'a' as int) as usize }
    }

    #[verifier::when_used_as_spec(is_valid_spec)]
    pub fn is_valid(&self) -> (r: bool)
        ensures
            r == self.is_valid_spec(),
    {
        'a' <= self.col && self.col <= 'h' && 1 <= self.row && self.row <= 8
    }

    /// A square from a file letter and a rank; anything outside a1..h8 is refused.
    pub fn new(col: char, row: u8) -> (r: Result<Self, ChessError>)
        ensures
            r is Ok <==> ('a' <= col <= 'h' && 1 <= row <= 8),
            r matches Ok(p) ==> p.col == col && p.row == row,
            r matches Err(e) ==> e.0 == ChessErrorKind::ParseError,
    {
        if !('a' <= col && col <= 'h') || !(1 <= row && row <= 8) {
            return Err(ChessError(ChessErrorKind::ParseError));
        }
        Ok(ChessPosition { col, row })
    }

    pub fn to_position(&self) -> (r: Position)
        requires
            self.is_valid(),
        ensures
            r == self.square(),
            r.row < 8 && r.col < 8,
    {
        Position { row: (8 - self.row) as usize, col: (self.col as u8 - 97u8) as usize }
    }

    pub fn from_position(position: Position) -> (r: Self)
        requires
            position.row < 8,
            position.col < 8,
        ensures
            r.is_valid(),
            r.square() == position,
    {
        let col = (97u8 + position.col as u8) as char;
        let row = (8 - position.row) as u8;
        Self { col, row }
    }

    /// Reads a square such as "e2" from text that holds exactly its two characters.
    pub fn from_trimmed(t: &str) -> (r: Result<Self, ChessError>)
        ensures
            r matches Ok(p) ==> square_text(t@) == Ok::<ChessPosition, ChessErrorKind>(p),
            r matches Err(e) ==> square_text(t@) == Err::<ChessPosition, ChessErrorKind>(e.0),
    {
        proof {
            vstd::string::is_ascii_spec_bytes(t);
        }
        if !t.is_ascii() {
            return Err(ChessError(ChessErrorKind::ParseError));
        }
        let b = t.as_bytes();
        if b.len() != 2 {
            return Err(ChessError(ChessErrorKind::ParseError));
        }
        let c0 = b[0];
        let c1 = b[1];
        if !(97u8 <= c0 && c0 <= 104u8) || !(49u8 <= c1 && c1 <= 56u8) {
            return Err(ChessError(ChessErrorKind::ParseError));
        }
        Ok(ChessPosition { col: c0 as char, row: c1 - 48u8 })
    }

    /// Reads a square such as "e2", ignoring surrounding white space.
    pub fn parse(s: &str) -> (r: Result<Self, ChessError>)
        ensures
            r matches Ok(p) ==> square_text(trimmed(s@)) == Ok::<ChessPosition, ChessErrorKind>(p),
            r matches Err(e) ==> square_text(trimmed(s@)) == Err::<ChessPosition, ChessErrorKind>(
                e.0,
            ),
    {
        Self::from_trimmed(trim(s))
    }
}

impl std::str::FromStr for ChessPosition {
    type Err = ChessError;

    fn from_str(s: &str) -> Result<Self, ChessError> {
        Self::parse(s)
    }
}

} // verus!
