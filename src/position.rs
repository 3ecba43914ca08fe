use vstd::prelude::*;

verus! {

/// A (column, row) address of a character slot or insertion point.
#[derive(Clone, Copy, Debug, PartialEq, Eq, Structural)]
pub struct Position {
    pub x: usize,
    pub y: usize,
}

impl Position {
    /// The origin `(0, 0)`.
    pub fn default() -> (r: Position)
        ensures
            r.x == 0,
            r.y == 0,
    {
        Position { x: 0, y: 0 }
    }
}

} // verus!
