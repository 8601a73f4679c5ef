use vstd::prelude::*;

verus! {

/// A place in the source text: line and column.
#[derive(Clone, Copy, Debug, PartialEq, Eq, Structural)]
pub struct Position(pub usize, pub usize);

impl Position {
    /// The position at the line and the column.
    pub fn new(line: usize, column: usize) -> (r: Self)
        ensures
            r == Position(line, column),
    {
        Position(line, column)
    }

    /// The line.
    pub open spec fn line(self) -> usize {
        self.0
    }

    /// The column.
    pub open spec fn column(self) -> usize {
        self.1
    }
}

} // verus!
