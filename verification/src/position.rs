//! Where in the source text something came from.
use vstd::prelude::*;

verus! {

/// A line and a column, or nowhere where both are zero.
#[derive(Clone, Copy, Debug, PartialEq, Eq, Structural)]
pub struct Position {
    pub line: u16,
    pub column: u16,
}

/// The position of what has none.
pub open spec fn nowhere() -> Position {
    Position { line: 0, column: 0 }
}

impl Position {
    /// The position of what has none.
    pub fn none() -> (p: Position)
        ensures
            p == nowhere(),
    {
        Position { line: 0, column: 0 }
    }

    /// Whether this names no place at all.
    pub fn is_none(&self) -> (r: bool)
        ensures
            r == (*self == nowhere()),
    {
        self.line == 0 && self.column == 0
    }
}

} // verus!
