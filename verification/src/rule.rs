//! The transition rule: what a cell becomes, given its state and the number
//! of its live neighbours.

use vstd::prelude::*;
use crate::cell::Cell;

verus! {

/// The rule of the automaton. A live cell with two or three live neighbours
/// survives, a dead cell with exactly three live neighbours is born, and
/// every other cell is dead in the next generation.
pub open spec fn survives_or_born(alive: bool, neighbours: int) -> bool {
    if alive {
        neighbours == 2 || neighbours == 3
    } else {
        neighbours == 3
    }
}

/// The rule, on cells.
pub open spec fn next_cell(cell: Cell, neighbours: int) -> Cell {
    Cell::of(survives_or_born(cell.alive(), neighbours))
}

/// Evaluates the rule for one cell. The count is not restricted to the
/// eight a Moore neighbourhood can hold: any other count yields a dead cell.
pub fn next_state(current: bool, neighbor_count: u8) -> (next: bool)
    ensures
        next == survives_or_born(current, neighbor_count as int),
{
    if current {
        neighbor_count == 2 || neighbor_count == 3
    } else {
        neighbor_count == 3
    }
}

/// Evaluates the rule for one cell of the dense grid.
pub fn apply_rule(cell: Cell, alive_neighbours: u32) -> (next: Cell)
    ensures
        next == next_cell(cell, alive_neighbours as int),
{
    match cell {
        Cell::Alive => if alive_neighbours == 2 || alive_neighbours == 3 {
            Cell::Alive
        } else {
            Cell::Dead
        },
        Cell::Dead => if alive_neighbours == 3 {
            Cell::Alive
        } else {
            Cell::Dead
        },
    }
}

} // verus!
