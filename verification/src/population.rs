//! Cells kept as records: each knows its position, its state and the
//! number of live neighbours last counted for it.
//!
//! A population need not fill a rectangle, and its records stand in no
//! particular order. This is the model for cells whose identity is not
//! their array index.

use vstd::prelude::*;
use crate::neighbourhood::one_if;
use crate::rule::survives_or_born;

verus! {

/// Where a cell lies.
#[derive(Debug, PartialEq, Eq, Clone, Copy, Default, Structural)]
pub struct Position {
    pub x: i32,
    pub y: i32,
}

/// Whether a cell is alive.
#[derive(Debug, PartialEq, Eq, Clone, Copy, Default, Structural)]
pub struct State(pub bool);

/// The number of live neighbours counted for a cell.
#[derive(Debug, PartialEq, Eq, Clone, Copy, Default, Structural)]
pub struct Neighbors(pub u8);

/// One cell of a population.
#[derive(Debug, PartialEq, Eq, Clone, Copy, Default, Structural)]
pub struct CellBundle {
    pub position: Position,
    pub state: State,
    pub neighbors: Neighbors,
}

/// The extent of a bounded grid.
#[derive(Debug, PartialEq, Eq, Clone, Copy, Structural)]
pub struct Grid {
    pub width: u32,
    pub height: u32,
}

impl State {
    /// The word for the state: "Alive" or "Dead".
    pub fn label(&self) -> (word: &'static str)
        ensures
            word@ == (if self.0 {
                "Alive"@
            } else {
                "Dead"@
            }),
    {
        if self.0 {
            "Alive"
        } else {
            "Dead"
        }
    }
}

/// Whether some cell of the population lies at `position`.
pub open spec fn occupied(cells: Seq<CellBundle>, position: Position) -> bool {
    exists|i: int| 0 <= i < cells.len() && (#[trigger] cells[i]).position == position
}

/// Whether some cell of the population is alive at `(x, y)`.
pub open spec fn population_alive_at(cells: Seq<CellBundle>, x: int, y: int) -> bool {
    exists|i: int|
        0 <= i < cells.len() && (#[trigger] cells[i]).state.0 && cells[i].position.x == x
            && cells[i].position.y == y
}

/// The number of positions around `(x, y)` at which some cell of the
/// population is alive. The plane has no edge here: every one of the eight
/// positions may hold a cell.
pub open spec fn population_neighbours(cells: Seq<CellBundle>, x: int, y: int) -> int {
    one_if(population_alive_at(cells, x - 1, y - 1))
        + one_if(population_alive_at(cells, x - 1, y))
        + one_if(population_alive_at(cells, x - 1, y + 1))
        + one_if(population_alive_at(cells, x, y - 1))
        + one_if(population_alive_at(cells, x, y + 1))
        + one_if(population_alive_at(cells, x + 1, y - 1))
        + one_if(population_alive_at(cells, x + 1, y))
        + one_if(population_alive_at(cells, x + 1, y + 1))
}

/// The population with the neighbour count of every cell taken anew from
/// the states as they stand. Positions and states stay.
pub open spec fn counted(cells: Seq<CellBundle>) -> Seq<CellBundle> {
    Seq::new(
        cells.len(),
        |i: int|
            CellBundle {
                position: cells[i].position,
                state: cells[i].state,
                neighbors: Neighbors(
                    population_neighbours(
                        cells,
                        cells[i].position.x as int,
                        cells[i].position.y as int,
                    ) as u8,
                ),
            },
    )
}

/// The population with the rule applied to every cell, each from its own
/// state and the count it carries. Positions and counts stay.
pub open spec fn ruled(cells: Seq<CellBundle>) -> Seq<CellBundle> {
    Seq::new(
        cells.len(),
        |i: int|
            CellBundle {
                position: cells[i].position,
                state: State(survives_or_born(cells[i].state.0, cells[i].neighbors.0 as int)),
                neighbors: cells[i].neighbors,
            },
    )
}

/// The position of the `i`-th cell where the positions of a grid of the
/// given width are listed row by row.
pub open spec fn row_major_position(width: int, i: int) -> Position {
    Position { x: (i % width) as i32, y: (i / width) as i32 }
}

/// Whether the population lists every position of a `width` by `height`
/// grid once, row by row, with no neighbour counted for any cell yet.
pub open spec fn freshly_spawned(cells: Seq<CellBundle>, width: int, height: int) -> bool {
    &&& cells.len() == width * height
    &&& forall|i: int|
        0 <= i < cells.len() ==> (#[trigger] cells[i]).position == row_major_position(width, i)
            && cells[i].neighbors == Neighbors(0)
}

/// One round of the population driver: count, apply the rule, and count
/// again, so that every cell carries the count that belongs to the new
/// states.
pub open spec fn round(cells: Seq<CellBundle>) -> Seq<CellBundle> {
    counted(ruled(counted(cells)))
}

/// The population after `n` rounds.
pub open spec fn after_rounds(cells: Seq<CellBundle>, n: nat) -> Seq<CellBundle>
    decreases n,
{
    if n == 0 {
        cells
    } else {
        round(after_rounds(cells, (n - 1) as nat))
    }
}

/// Whether the round that follows `k` rounds changes the state of a cell.
pub open spec fn round_changes(cells: Seq<CellBundle>, k: nat) -> bool {
    states_differ(counted(after_rounds(cells, k)), ruled(counted(after_rounds(cells, k))))
}

/// Whether some round among the first `n` changes the state of a cell.
pub open spec fn changed_in_rounds(cells: Seq<CellBundle>, n: nat) -> bool {
    exists|k: nat| k < n && #[trigger] round_changes(cells, k)
}

/// Rounds move no cell: the population keeps its size and every cell its
/// position.
pub proof fn lemma_rounds_keep_positions(cells: Seq<CellBundle>, n: nat)
    ensures
        after_rounds(cells, n).len() == cells.len(),
        forall|i: int|
            0 <= i < cells.len() ==> (#[trigger] after_rounds(cells, n)[i]).position
                == cells[i].position,
    decreases n,
{
    if n > 0 {
        lemma_rounds_keep_positions(cells, (n - 1) as nat);
    }
}

/// Counting twice is counting once: a count depends on positions and
/// states alone, and counting changes neither.
pub proof fn lemma_counted_is_idempotent(cells: Seq<CellBundle>)
    ensures
        counted(counted(cells)) == counted(cells),
{
    let once = counted(cells);
    assert forall|x: int, y: int| population_alive_at(once, x, y) == population_alive_at(
        cells,
        x,
        y,
    ) by {
        if population_alive_at(once, x, y) {
            let i = choose|i: int|
                0 <= i < once.len() && (#[trigger] once[i]).state.0 && once[i].position.x == x
                    && once[i].position.y == y;
            assert(cells[i].state.0);
        }
        if population_alive_at(cells, x, y) {
            let i = choose|i: int|
                0 <= i < cells.len() && (#[trigger] cells[i]).state.0 && cells[i].position.x == x
                    && cells[i].position.y == y;
            assert(once[i].state.0);
        }
    }
}

/// Whether the two populations differ in the state of some cell.
pub open spec fn states_differ(before: Seq<CellBundle>, after: Seq<CellBundle>) -> bool {
    exists|i: int| 0 <= i < before.len() && (#[trigger] before[i]).state != after[i].state
}

} // verus!
