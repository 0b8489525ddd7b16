use vstd::prelude::*;

verus! {

/// Why an operation of the engine was refused.
#[derive(Debug, Clone, Copy, PartialEq, Eq, Structural)]
pub enum ChessErrorKind {
    /// A board was asked for with zero rows or zero columns.
    InvalidDimensions,
    /// A piece was placed on a square that already holds one.
    OccupiedSquare,
    /// Text that is not a square in algebraic notation.
    ParseError,
    /// The match has ended in checkmate and takes no more moves.
    GameOver,
    /// The source square is empty.
    NoPieceAtSource,
    /// The piece on the source square belongs to the other side.
    NotYourPiece,
    /// The piece on the source square cannot move anywhere.
    NoLegalMoves,
    /// The target square lies outside the board.
    TargetOutOfBounds,
    /// The piece cannot reach the target square.
    IllegalTarget,
    /// The move would leave the mover's own king in check.
    SelfCheck,
}

/// An error of the engine, tagged with its kind.
#[derive(Debug, Clone, Copy, PartialEq, Eq, Structural)]
pub struct ChessError(pub ChessErrorKind);

impl ChessError {
    pub fn kind(&self) -> (r: ChessErrorKind)
        ensures
            r == self.0,
    {
        self.0
    }
}

} // verus!
