//! The state of one grid position.

use vstd::prelude::*;

verus! {

/// One cell of the grid: dead or alive.
#[derive(Debug, PartialEq, Eq, Clone, Copy, Structural)]
pub enum Cell {
    Dead,
    Alive,
}

impl Cell {
    /// Whether this cell is alive.
    pub open spec fn alive(self) -> bool {
        self == Cell::Alive
    }

    /// The cell that has the given liveness.
    pub open spec fn of(alive: bool) -> Cell {
        if alive {
            Cell::Alive
        } else {
            Cell::Dead
        }
    }

    /// Reads the liveness of the cell as a boolean.
    pub fn is_alive(&self) -> (b: bool)
        ensures
            b == self.alive(),
    {
        match self {
            Cell::Alive => true,
            Cell::Dead => false,
        }
    }

    /// Builds a cell from a boolean liveness.
    pub fn from_alive(alive: bool) -> (cell: Cell)
        ensures
            cell == Cell::of(alive),
    {
        if alive {
            Cell::Alive
        } else {
            Cell::Dead
        }
    }
}

} // verus!
