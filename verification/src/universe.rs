//! The dense grid store: a rectangular array of cells in row-major order,
//! the neighbour count by direct indexed lookup, and the step that replaces
//! one generation by the next.

use vstd::prelude::*;
use crate::cell::Cell;
use crate::error::GridError;
use crate::generation::{extinct, next_generation};
use crate::neighbourhood::{
    alive_at, alive_neighbours, cell_index, fills_grid, in_bounds,
    lemma_alive_neighbours_counts_positions, lemma_cell_index_bounds, lemma_cell_index_position,
    live_neighbour_positions, one_if,
};
use crate::random::gen_range;
use crate::rule::apply_rule;

verus! {

/// A grid of fixed extent together with the cells of its current generation.
#[derive(Debug, PartialEq, Eq)]
pub struct Universe {
    pub width: u32,
    pub height: u32,
    pub cells: Vec<Cell>,
}

/// Makes the cells of a `width` by `height` grid, all of them dead.
pub fn initialize_cells(width: u32, height: u32) -> (cells: Vec<Cell>)
    requires
        width * height <= usize::MAX,
    ensures
        fills_grid(cells@, width as int, height as int),
        forall|i: int| 0 <= i < cells@.len() ==> cells@[i] == Cell::Dead,
{
    let size = (width as usize) * (height as usize);
    let mut cells = Vec::with_capacity(size);
    let mut i: usize = 0;
    while i < size
        invariant
            i <= size,
            cells@.len() == i,
            forall|j: int| 0 <= j < i ==> cells@[j] == Cell::Dead,
        decreases size - i,
    {
        cells.push(Cell::Dead);
        i += 1;
    }
    cells
}

/// The cell that a draw from `0..2` stands for: dead for zero, alive
/// otherwise.
pub open spec fn drawn_cell(draw: u32) -> Cell {
    if draw == 0 {
        Cell::Dead
    } else {
        Cell::Alive
    }
}

/// Turns a random draw into a cell.
pub fn cell_from_draw(draw: u32) -> (cell: Cell)
    ensures
        cell == drawn_cell(draw),
{
    match draw {
        0 => Cell::Dead,
        _ => Cell::Alive,
    }
}

/// Sets every cell dead or alive with equal chance, each by a draw of its
/// own from the thread's random generator. The number of cells stays; which
/// of them live is left to chance.
pub fn randomize(cells: &mut Vec<Cell>)
    ensures
        final(cells)@.len() == old(cells)@.len(),
{
    let mut rng = rand::thread_rng();
    let mut i: usize = 0;
    while i < cells.len()
        invariant
            cells@.len() == old(cells)@.len(),
        decreases cells@.len() - i,
    {
        let draw = gen_range(&mut rng, 0, 2);
        cells.set(i, cell_from_draw(draw));
        i += 1;
    }
}

/// Reads the cell at column `x` of row `y`.
pub fn get_cell_by_position(cells: &Vec<Cell>, width: u32, x: u32, y: u32) -> (cell: &Cell)
    requires
        0 <= cell_index(width as int, x as int, y as int) < cells@.len(),
    ensures
        *cell == cells@[cell_index(width as int, x as int, y as int)],
{
    assert(0 <= y * width) by (nonlinear_arith);
    assert(cells.len() == cells@.len());
    let index = (y as usize) * (width as usize) + (x as usize);
    &cells[index]
}

/// Writes the cell at column `x` of row `y`, and no other.
pub fn set_cell_by_position(cells: &mut Vec<Cell>, width: u32, x: u32, y: u32, cell: Cell)
    requires
        0 <= cell_index(width as int, x as int, y as int) < old(cells)@.len(),
    ensures
        final(cells)@ == old(cells)@.update(cell_index(width as int, x as int, y as int), cell),
{
    assert(0 <= y * width) by (nonlinear_arith);
    assert(cells.len() == cells@.len());
    let index = (y as usize) * (width as usize) + (x as usize);
    cells.set(index, cell);
}

/// One or zero, as the position `(x, y)` holds a live cell or not. A
/// position outside the grid holds none.
fn live_at(cells: &Vec<Cell>, width: u32, height: u32, x: i64, y: i64) -> (n: u32)
    requires
        fills_grid(cells@, width as int, height as int),
    ensures
        n == one_if(alive_at(cells@, width as int, height as int, x as int, y as int)),
{
    if x < 0 || x >= width as i64 || y < 0 || y >= height as i64 {
        return 0;
    }
    proof {
        lemma_cell_index_bounds(width as int, height as int, x as int, y as int);
    }
    match get_cell_by_position(cells, width, x as u32, y as u32) {
        Cell::Alive => 1,
        Cell::Dead => 0,
    }
}

/// Counts the live cells among the up to eight neighbours of `(x, y)`, by
/// direct lookup in the given generation. A cell at the edge has fewer
/// neighbours; what lies outside the grid does not count.
pub fn get_alive_neighbours_count(
    cells: &Vec<Cell>,
    width: u32,
    height: u32,
    x: u32,
    y: u32,
) -> (count: u32)
    requires
        fills_grid(cells@, width as int, height as int),
    ensures
        count == alive_neighbours(cells@, width as int, height as int, x as int, y as int),
        count == live_neighbour_positions(
            cells@,
            width as int,
            height as int,
            x as int,
            y as int,
        ).len(),
        count <= 8,
{
    proof {
        lemma_alive_neighbours_counts_positions(
            cells@,
            width as int,
            height as int,
            x as int,
            y as int,
        );
    }
    let x = x as i64;
    let y = y as i64;
    let mut count: u32 = 0;
    count += live_at(cells, width, height, x - 1, y - 1);
    count += live_at(cells, width, height, x - 1, y);
    count += live_at(cells, width, height, x - 1, y + 1);
    count += live_at(cells, width, height, x, y - 1);
    count += live_at(cells, width, height, x, y + 1);
    count += live_at(cells, width, height, x + 1, y - 1);
    count += live_at(cells, width, height, x + 1, y);
    count += live_at(cells, width, height, x + 1, y + 1);
    count
}

/// Computes the rows from `first_row` up to `end_row` of the generation
/// that follows `cells`, into a buffer of their own, and tells whether any
/// cell of these rows differs from the one before. Every count is taken from
/// `cells`, which stays as it is: the rows of a generation can be computed
/// apart from each other, in any order.
pub fn compute_next_rows(
    cells: &Vec<Cell>,
    width: u32,
    height: u32,
    first_row: u32,
    end_row: u32,
) -> (next: (Vec<Cell>, bool))
    requires
        fills_grid(cells@, width as int, height as int),
        first_row <= end_row <= height,
    ensures
        next.0@ == next_generation(cells@, width as int, height as int).subrange(
            first_row * width,
            end_row * width,
        ),
        next.1 == (next.0@ != cells@.subrange(first_row * width, end_row * width)),
{
    let ghost target = next_generation(cells@, width as int, height as int);
    let ghost offset = first_row * width;
    let mut rows: Vec<Cell> = Vec::new();
    let mut changed = false;
    let mut y: u32 = first_row;
    while y < end_row
        invariant
            first_row <= y <= end_row <= height,
            fills_grid(cells@, width as int, height as int),
            target == next_generation(cells@, width as int, height as int),
            offset == first_row * width,
            offset + rows@.len() == y * width,
            forall|k: int| 0 <= k < rows@.len() ==> rows@[k] == target[offset + k],
            changed <==> exists|k: int| 0 <= k < rows@.len() && rows@[k] != cells@[offset + k],
        decreases end_row - y,
    {
        let mut x: u32 = 0;
        while x < width
            invariant
                first_row <= y < end_row <= height,
                x <= width,
                fills_grid(cells@, width as int, height as int),
                target == next_generation(cells@, width as int, height as int),
                offset == first_row * width,
                offset + rows@.len() == y * width + x,
                forall|k: int| 0 <= k < rows@.len() ==> rows@[k] == target[offset + k],
                changed <==> exists|k: int| 0 <= k < rows@.len() && rows@[k] != cells@[offset + k],
            decreases width - x,
        {
            let ghost earlier = rows@;
            proof {
                lemma_cell_index_bounds(width as int, height as int, x as int, y as int);
                lemma_cell_index_position(width as int, height as int, x as int, y as int);
            }
            let cell = *get_cell_by_position(cells, width, x, y);
            let alive_neighbours = get_alive_neighbours_count(cells, width, height, x, y);
            let new_cell = apply_rule(cell, alive_neighbours);
            rows.push(new_cell);
            if new_cell != cell {
                changed = true;
            }
            x += 1;
            proof {
                let last = earlier.len() as int;
                if new_cell != cell {
                    assert(rows@[last] != cells@[offset + last]);
                } else if changed {
                    let k = choose|k: int|
                        0 <= k < earlier.len() && earlier[k] != cells@[offset + k];
                    assert(rows@[k] != cells@[offset + k]);
                }
            }
        }
        assert((y + 1) * width == y * width + width) by (nonlinear_arith);
        y += 1;
    }
    proof {
        assert(first_row * width <= end_row * width <= height * width) by (nonlinear_arith)
            requires
                first_row <= end_row <= height,
        ;
        let before = cells@.subrange(first_row * width, end_row * width);
        if !changed {
            assert(rows@ =~= before);
        } else {
            let k = choose|k: int| 0 <= k < rows@.len() && rows@[k] != cells@[offset + k];
            assert(rows@[k] != before[k]);
        }
    }
    (rows, changed)
}

/// Computes the generation that follows `cells`, and tells whether any cell
/// differs from the one before.
pub fn compute_next_generation(cells: &Vec<Cell>, width: u32, height: u32) -> (next: (
    Vec<Cell>,
    bool,
))
    requires
        fills_grid(cells@, width as int, height as int),
    ensures
        next.0@ == next_generation(cells@, width as int, height as int),
        next.1 == (next.0@ != cells@),
{
    let next = compute_next_rows(cells, width, height, 0, height);
    proof {
        assert(height * width == width * height) by (nonlinear_arith);
        assert(cells@.subrange(0, height * width) =~= cells@);
    }
    next
}

/// Advances the universe by one generation: the whole grid moves to the
/// next generation as one, and the result tells whether any cell changed.
pub fn run_iteration(universe: &mut Universe) -> (changed: bool)
    requires
        old(universe).wf(),
    ensures
        final(universe).wf(),
        final(universe).width == old(universe).width,
        final(universe).height == old(universe).height,
        final(universe).cells@ == next_generation(
            old(universe).cells@,
            old(universe).width as int,
            old(universe).height as int,
        ),
        changed == (final(universe).cells@ != old(universe).cells@),
{
    let (new_cells, changed) = compute_next_generation(
        &universe.cells,
        universe.width,
        universe.height,
    );
    universe.cells = new_cells;
    changed
}

impl Default for Universe {
    /// The universe of no extent, without a cell.
    fn default() -> (universe: Universe)
        ensures
            universe.wf(),
            universe.width == 0,
            universe.height == 0,
    {
        Universe { width: 0, height: 0, cells: Vec::new() }
    }
}

impl Universe {
    /// Whether the universe holds one cell for each position of its grid.
    pub open spec fn wf(&self) -> bool {
        fills_grid(self.cells@, self.width as int, self.height as int)
    }

    /// Whether `(x, y)` is a position of this universe's grid.
    pub open spec fn contains(&self, x: u32, y: u32) -> bool {
        in_bounds(self.width as int, self.height as int, x as int, y as int)
    }

    /// The cell at `(x, y)` in the model of the grid.
    pub open spec fn cell_at(&self, x: u32, y: u32) -> Cell {
        self.cells@[cell_index(self.width as int, x as int, y as int)]
    }

    /// Makes a universe of the given extent with every cell dead. A width or
    /// a height of zero is refused.
    pub fn create(width: u32, height: u32) -> (made: Result<Universe, GridError>)
        requires
            width * height <= usize::MAX,
        ensures
            match made {
                Ok(universe) => {
                    &&& width > 0 && height > 0
                    &&& universe.wf()
                    &&& universe.width == width
                    &&& universe.height == height
                    &&& extinct(universe.cells@)
                },
                Err(error) => (width == 0 || height == 0) && error == GridError::ConfigurationError,
            },
    {
        if width == 0 || height == 0 {
            return Err(GridError::ConfigurationError);
        }
        let cells = initialize_cells(width, height);
        Ok(Universe { width, height, cells })
    }

    /// Sets every cell dead or alive by chance, and keeps the extent.
    pub fn randomize(&mut self)
        requires
            old(self).wf(),
        ensures
            final(self).wf(),
            final(self).width == old(self).width,
            final(self).height == old(self).height,
    {
        randomize(&mut self.cells);
    }

    /// Reads the state of the cell at `(x, y)`. A coordinate outside the
    /// grid is refused.
    pub fn get(&self, x: u32, y: u32) -> (state: Result<Cell, GridError>)
        requires
            self.wf(),
        ensures
            match state {
                Ok(cell) => self.contains(x, y) && cell == self.cell_at(x, y),
                Err(error) => !self.contains(x, y) && error == GridError::IndexOutOfBounds,
            },
    {
        if x >= self.width || y >= self.height {
            return Err(GridError::IndexOutOfBounds);
        }
        proof {
            lemma_cell_index_bounds(self.width as int, self.height as int, x as int, y as int);
        }
        Ok(*get_cell_by_position(&self.cells, self.width, x, y))
    }

    /// Writes the state of the cell at `(x, y)` and leaves every other cell
    /// as it was. A coordinate outside the grid is refused, and the grid is
    /// then unchanged.
    pub fn set(&mut self, x: u32, y: u32, state: Cell) -> (done: Result<(), GridError>)
        requires
            old(self).wf(),
        ensures
            final(self).wf(),
            final(self).width == old(self).width,
            final(self).height == old(self).height,
            match done {
                Ok(_) => {
                    &&& old(self).contains(x, y)
                    &&& final(self).cells@ == old(self).cells@.update(
                        cell_index(old(self).width as int, x as int, y as int),
                        state,
                    )
                },
                Err(error) => {
                    &&& !old(self).contains(x, y)
                    &&& error == GridError::IndexOutOfBounds
                    &&& final(self).cells@ == old(self).cells@
                },
            },
    {
        if x >= self.width || y >= self.height {
            return Err(GridError::IndexOutOfBounds);
        }
        proof {
            lemma_cell_index_bounds(self.width as int, self.height as int, x as int, y as int);
        }
        set_cell_by_position(&mut self.cells, self.width, x, y, state);
        Ok(())
    }
}

} // verus!
