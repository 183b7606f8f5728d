//! The cells of the grid.

use vstd::prelude::*;

verus! {

/// What one cell of the grid holds.
#[derive(Debug, PartialEq, Eq, Structural, Copy, Clone)]
pub enum State {
    Empty,
    Cursor,
    Stack,
}

/// One cell of the grid.
#[derive(Debug, Copy, Clone)]
pub struct Cell {
    pub state: State,
}

impl Cell {
    /// An empty cell.
    pub fn new() -> (cell: Self)
        ensures
            cell.state == State::Empty,
    {
        Cell { state: State::Empty }
    }
}

} // verus!
