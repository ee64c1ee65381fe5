//! The position index: a map from positions to cell states, rebuilt from a
//! population and then asked in constant time on average.
//!
//! The index is a snapshot. It shows the states as they stood when it was
//! last rebuilt, and a pass that counts neighbours from it reads no state
//! that the same generation has already replaced.

use vstd::prelude::*;
use std::collections::HashMap;
use crate::driver::CellsChanged;
use crate::neighbourhood::{in_bounds, one_if};
use crate::population::{occupied, CellBundle, Grid, Neighbors, Position};

verus! {

/// The key under which the index keeps a position: the two coordinates,
/// each moved into the range of a `u32`, side by side in a `u64`.
pub open spec fn key_of(position: Position) -> u64 {
    ((position.x + 0x8000_0000) * 0x1_0000_0000 + (position.y + 0x8000_0000)) as u64
}

/// Two positions with the same key are the same position.
pub proof fn lemma_key_of_is_injective(p: Position, q: Position)
    requires
        key_of(p) == key_of(q),
    ensures
        p == q,
{
}

/// Computes the key of a position.
pub fn position_key(position: Position) -> (key: u64)
    ensures
        key == key_of(position),
{
    let column = (position.x as i64 + 0x8000_0000) as u64;
    let row = (position.y as i64 + 0x8000_0000) as u64;
    column * 0x1_0000_0000 + row
}

/// The map built by entering the cells of a population one after the other,
/// each position with the state of its cell. Where two cells share a
/// position, the later one is the one shown.
pub open spec fn position_index(cells: Seq<CellBundle>) -> Map<Position, bool>
    decreases cells.len(),
{
    if cells.len() == 0 {
        Map::empty()
    } else {
        position_index(cells.drop_last()).insert(cells.last().position, cells.last().state.0)
    }
}

/// The index knows exactly the positions that occur in the population.
pub proof fn lemma_position_index_domain(cells: Seq<CellBundle>, position: Position)
    ensures
        position_index(cells).contains_key(position) <==> occupied(cells, position),
    decreases cells.len(),
{
    if cells.len() > 0 {
        let front = cells.drop_last();
        lemma_position_index_domain(front, position);
        if position_index(cells).contains_key(position) {
            if cells.last().position == position {
                assert(cells[cells.len() - 1].position == position);
            } else {
                let i = choose|i: int|
                    0 <= i < front.len() && (#[trigger] front[i]).position == position;
                assert(cells[i].position == position);
            }
        }
        if occupied(cells, position) {
            let i = choose|i: int|
                0 <= i < cells.len() && (#[trigger] cells[i]).position == position;
            if i < cells.len() - 1 {
                assert(front[i].position == position);
            }
        }
    }
}

/// The index shows for a position the state of the last cell that lies
/// there: of the only one, where no two cells share a position.
pub proof fn lemma_position_index_value(cells: Seq<CellBundle>, i: int)
    requires
        0 <= i < cells.len(),
        forall|j: int| i < j < cells.len() ==> (#[trigger] cells[j]).position != cells[i].position,
    ensures
        position_index(cells).contains_key(cells[i].position),
        position_index(cells)[cells[i].position] == cells[i].state.0,
    decreases cells.len(),
{
    if i < cells.len() - 1 {
        lemma_position_index_value(cells.drop_last(), i);
    }
}

/// Whether `(x, y)` is a position of the grid for which the index shows a
/// live cell. What lies outside the grid does not count, whatever the index
/// shows there.
pub open spec fn indexed_alive_at(index: Map<Position, bool>, grid: Grid, x: int, y: int) -> bool {
    &&& in_bounds(grid.width as int, grid.height as int, x, y)
    &&& x <= i32::MAX
    &&& y <= i32::MAX
    &&& index.contains_key(Position { x: x as i32, y: y as i32 })
    &&& index[Position { x: x as i32, y: y as i32 }]
}

/// The number of positions around `(x, y)` that lie in the grid and for
/// which the index shows a live cell.
pub open spec fn indexed_neighbours(index: Map<Position, bool>, grid: Grid, x: int, y: int) -> int {
    one_if(indexed_alive_at(index, grid, x - 1, y - 1))
        + one_if(indexed_alive_at(index, grid, x - 1, y))
        + one_if(indexed_alive_at(index, grid, x - 1, y + 1))
        + one_if(indexed_alive_at(index, grid, x, y - 1))
        + one_if(indexed_alive_at(index, grid, x, y + 1))
        + one_if(indexed_alive_at(index, grid, x + 1, y - 1))
        + one_if(indexed_alive_at(index, grid, x + 1, y))
        + one_if(indexed_alive_at(index, grid, x + 1, y + 1))
}

/// The population with the neighbour count of every cell taken from the
/// index, within the grid. Positions and states stay.
pub open spec fn counted_from_index(
    cells: Seq<CellBundle>,
    index: Map<Position, bool>,
    grid: Grid,
) -> Seq<CellBundle> {
    Seq::new(
        cells.len(),
        |i: int|
            CellBundle {
                position: cells[i].position,
                state: cells[i].state,
                neighbors: Neighbors(
                    indexed_neighbours(
                        index,
                        grid,
                        cells[i].position.x as int,
                        cells[i].position.y as int,
                    ) as u8,
                ),
            },
    )
}

/// The position index.
#[derive(Debug)]
pub struct CellPositions {
    pub map: HashMap<u64, bool>,
}

impl View for CellPositions {
    type V = Map<Position, bool>;

    /// The index as a map from positions to states.
    open spec fn view(&self) -> Map<Position, bool> {
        Map::new(
            |position: Position| self.map@.contains_key(key_of(position)),
            |position: Position| self.map@[key_of(position)],
        )
    }
}

impl CellPositions {
    /// Makes an index that knows no position.
    pub fn new() -> (index: CellPositions)
        ensures
            index@ == Map::<Position, bool>::empty(),
    {
        CellPositions { map: HashMap::new() }
    }

    /// Forgets every position.
    pub fn clear(&mut self)
        ensures
            final(self)@ == Map::<Position, bool>::empty(),
    {
        self.map.clear();
    }

    /// Enters a position with its state, in place of what the index showed
    /// for that position before.
    pub fn insert(&mut self, position: Position, alive: bool)
        ensures
            final(self)@ == old(self)@.insert(position, alive),
    {
        self.map.insert(position_key(position), alive);
        proof {
            assert forall|other: Position| other != position implies key_of(other) != key_of(
                position,
            ) by {
                if key_of(other) == key_of(position) {
                    lemma_key_of_is_injective(other, position);
                }
            }
        }
    }

    /// Looks a position up: the state that the index shows for it, if it
    /// knows the position.
    pub fn get(&self, position: Position) -> (state: Option<bool>)
        ensures
            state == (if self@.contains_key(position) {
                Some(self@[position])
            } else {
                None
            }),
    {
        let key = position_key(position);
        match self.map.get(&key) {
            Some(alive) => Some(*alive),
            None => None,
        }
    }
}

/// Brings the index up to date with the population, if some cell has changed
/// since it was last rebuilt, and clears the flag. Where nothing has changed
/// the index is left as it is.
pub fn rebuild_cell_positions(
    cells: &Vec<CellBundle>,
    cell_positions: &mut CellPositions,
    cells_changed: &mut CellsChanged,
)
    ensures
        final(cell_positions)@ == (if old(cells_changed).0 {
            position_index(cells@)
        } else {
            old(cell_positions)@
        }),
        !final(cells_changed).0,
{
    if !cells_changed.0 {
        return ;
    }
    cell_positions.clear();
    let mut i: usize = 0;
    while i < cells.len()
        invariant
            i <= cells@.len(),
            cell_positions@ == position_index(cells@.take(i as int)),
        decreases cells@.len() - i,
    {
        let cell = cells[i];
        cell_positions.insert(cell.position, cell.state.0);
        proof {
            assert(cells@.take(i + 1).drop_last() =~= cells@.take(i as int));
        }
        i += 1;
    }
    assert(cells@.take(cells@.len() as int) =~= cells@);
    cells_changed.0 = false;
}

} // verus!
