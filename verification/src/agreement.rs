//! The ways of counting neighbours give the same generation: looking cells
//! up in the dense array, looking positions up in the index, and asking
//! which cells of a population lie around a position.

use vstd::prelude::*;
use crate::cell::Cell;
use crate::generation::next_generation;
use crate::neighbourhood::{
    alive_at, alive_neighbours, cell_index, in_bounds, lemma_cell_index_bounds,
    lemma_cell_index_position, lemma_index_is_position,
};
use crate::population::{
    counted, population_alive_at, population_neighbours, row_major_position, ruled, CellBundle,
    Grid,
};
use crate::position_index::{
    counted_from_index, indexed_alive_at, indexed_neighbours, lemma_position_index_value,
    position_index,
};

verus! {

/// Whether the population lists every position of the grid once, row by
/// row.
pub open spec fn lists_grid(cells: Seq<CellBundle>, grid: Grid) -> bool {
    &&& grid.width <= 0x8000_0000
    &&& grid.height <= 0x8000_0000
    &&& cells.len() == grid.width * grid.height
    &&& forall|i: int|
        0 <= i < cells.len() ==> (#[trigger] cells[i]).position == row_major_position(
            grid.width as int,
            i,
        )
}

/// The generation that the states of a population make, in the order of
/// its cells.
pub open spec fn states_of(cells: Seq<CellBundle>) -> Seq<Cell> {
    Seq::new(cells.len(), |i: int| Cell::of(cells[i].state.0))
}

/// The index rebuilt from a population that lists the grid shows a live
/// cell at a position exactly where the dense array holds one.
pub proof fn lemma_index_shows_grid(cells: Seq<CellBundle>, grid: Grid, x: int, y: int)
    requires
        lists_grid(cells, grid),
    ensures
        indexed_alive_at(position_index(cells), grid, x, y) == alive_at(
            states_of(cells),
            grid.width as int,
            grid.height as int,
            x,
            y,
        ),
{
    let width = grid.width as int;
    let height = grid.height as int;
    if in_bounds(width, height, x, y) {
        let i = cell_index(width, x, y);
        lemma_cell_index_bounds(width, height, x, y);
        lemma_cell_index_position(width, height, x, y);
        assert forall|j: int| i < j < cells.len() implies (#[trigger] cells[j]).position
            != cells[i].position by {
            lemma_index_is_position(width, height, j);
        }
        lemma_position_index_value(cells, i);
    }
}

/// Counting from the rebuilt index gives every position the count that the
/// dense array gives it.
pub proof fn lemma_index_counts_as_grid(cells: Seq<CellBundle>, grid: Grid, x: int, y: int)
    requires
        lists_grid(cells, grid),
    ensures
        indexed_neighbours(position_index(cells), grid, x, y) == alive_neighbours(
            states_of(cells),
            grid.width as int,
            grid.height as int,
            x,
            y,
        ),
{
    lemma_index_shows_grid(cells, grid, x - 1, y - 1);
    lemma_index_shows_grid(cells, grid, x - 1, y);
    lemma_index_shows_grid(cells, grid, x - 1, y + 1);
    lemma_index_shows_grid(cells, grid, x, y - 1);
    lemma_index_shows_grid(cells, grid, x, y + 1);
    lemma_index_shows_grid(cells, grid, x + 1, y - 1);
    lemma_index_shows_grid(cells, grid, x + 1, y);
    lemma_index_shows_grid(cells, grid, x + 1, y + 1);
}

/// A generation advance made by the index and the rule ends in the states
/// that the dense step gives: the two strategies agree in result.
pub proof fn lemma_strategies_agree(cells: Seq<CellBundle>, grid: Grid)
    requires
        lists_grid(cells, grid),
    ensures
        states_of(ruled(counted_from_index(cells, position_index(cells), grid))) == next_generation(
            states_of(cells),
            grid.width as int,
            grid.height as int,
        ),
        lists_grid(ruled(counted_from_index(cells, position_index(cells), grid)), grid),
{
    let width = grid.width as int;
    let height = grid.height as int;
    let advanced = ruled(counted_from_index(cells, position_index(cells), grid));
    let dense = next_generation(states_of(cells), width, height);
    assert forall|i: int| 0 <= i < cells.len() implies states_of(advanced)[i] == dense[i] by {
        lemma_index_is_position(width, height, i);
        lemma_index_counts_as_grid(cells, grid, i % width, i / width);
    }
}

/// In a population that lists the grid, some cell is alive at a position
/// exactly where the dense array holds a live cell: no cell lies outside the
/// grid, so the plane without an edge counts as the bounded grid does.
pub proof fn lemma_population_shows_grid(cells: Seq<CellBundle>, grid: Grid, x: int, y: int)
    requires
        lists_grid(cells, grid),
    ensures
        population_alive_at(cells, x, y) == alive_at(
            states_of(cells),
            grid.width as int,
            grid.height as int,
            x,
            y,
        ),
{
    let width = grid.width as int;
    let height = grid.height as int;
    if population_alive_at(cells, x, y) {
        let j = choose|j: int|
            0 <= j < cells.len() && (#[trigger] cells[j]).state.0 && cells[j].position.x == x
                && cells[j].position.y == y;
        lemma_index_is_position(width, height, j);
    }
    if in_bounds(width, height, x, y) {
        let i = cell_index(width, x, y);
        lemma_cell_index_bounds(width, height, x, y);
        lemma_cell_index_position(width, height, x, y);
        if states_of(cells)[i].alive() {
            assert(cells[i].state.0);
        }
    }
}

/// Counting among the cells of a population that lists the grid gives
/// every position the count that the dense array gives it.
pub proof fn lemma_population_counts_as_grid(cells: Seq<CellBundle>, grid: Grid, x: int, y: int)
    requires
        lists_grid(cells, grid),
    ensures
        population_neighbours(cells, x, y) == alive_neighbours(
            states_of(cells),
            grid.width as int,
            grid.height as int,
            x,
            y,
        ),
{
    lemma_population_shows_grid(cells, grid, x - 1, y - 1);
    lemma_population_shows_grid(cells, grid, x - 1, y);
    lemma_population_shows_grid(cells, grid, x - 1, y + 1);
    lemma_population_shows_grid(cells, grid, x, y - 1);
    lemma_population_shows_grid(cells, grid, x, y + 1);
    lemma_population_shows_grid(cells, grid, x + 1, y - 1);
    lemma_population_shows_grid(cells, grid, x + 1, y);
    lemma_population_shows_grid(cells, grid, x + 1, y + 1);
}

/// A counting pass over the population and a rule pass end in the states
/// that the dense step gives.
pub proof fn lemma_passes_agree(cells: Seq<CellBundle>, grid: Grid)
    requires
        lists_grid(cells, grid),
    ensures
        states_of(ruled(counted(cells))) == next_generation(
            states_of(cells),
            grid.width as int,
            grid.height as int,
        ),
        lists_grid(ruled(counted(cells)), grid),
{
    let width = grid.width as int;
    let height = grid.height as int;
    let advanced = ruled(counted(cells));
    let dense = next_generation(states_of(cells), width, height);
    assert forall|i: int| 0 <= i < cells.len() implies states_of(advanced)[i] == dense[i] by {
        lemma_index_is_position(width, height, i);
        lemma_population_counts_as_grid(cells, grid, i % width, i / width);
    }
}

} // verus!
