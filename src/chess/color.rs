use vstd::prelude::*;

verus! {

/// The two sides of a match.
#[derive(Debug, Clone, Copy, PartialEq, Eq, Structural)]
pub enum Color {
    Black,
    White,
}

impl Color {
    pub fn is_white(&self) -> (r: bool)
        ensures
            r == (*self == Color::White),
    {
        matches!(self, Color::White)
    }

    pub fn is_black(&self) -> (r: bool)
        ensures
            r == (*self == Color::Black),
    {
        matches!(self, Color::Black)
    }
}

} // verus!
