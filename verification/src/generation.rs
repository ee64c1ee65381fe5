//! Generations: the whole grid at one time step, and the step from one to
//! the next.
//!
//! The next generation is a function of the previous one alone. Every cell
//! of it is decided from the previous generation's cells, never from a cell
//! that the same step has already replaced.

use vstd::prelude::*;
use crate::cell::Cell;
use crate::neighbourhood::{
    alive_at, alive_neighbours, cell_index, fills_grid, in_bounds, lemma_cell_index_bounds,
    lemma_index_is_position,
};
use crate::rule::next_cell;

verus! {

/// The generation that follows `cells` on a `width` by `height` grid.
pub open spec fn next_generation(cells: Seq<Cell>, width: int, height: int) -> Seq<Cell> {
    Seq::new(
        cells.len(),
        |i: int| next_cell(cells[i], alive_neighbours(cells, width, height, i % width, i / width)),
    )
}

/// The generation reached from `cells` by `n` steps.
pub open spec fn generation_after(cells: Seq<Cell>, width: int, height: int, n: nat) -> Seq<Cell>
    decreases n,
{
    if n == 0 {
        cells
    } else {
        next_generation(generation_after(cells, width, height, (n - 1) as nat), width, height)
    }
}

/// Whether no cell of the generation is alive.
pub open spec fn extinct(cells: Seq<Cell>) -> bool {
    forall|i: int| 0 <= i < cells.len() ==> !(#[trigger] cells[i]).alive()
}

/// Whether the step that follows `k` steps from `cells` changes a cell.
pub open spec fn step_changes(cells: Seq<Cell>, width: int, height: int, k: nat) -> bool {
    generation_after(cells, width, height, k + 1) != generation_after(cells, width, height, k)
}

/// Whether some step among the first `n` from `cells` changes a cell.
pub open spec fn changed_within(cells: Seq<Cell>, width: int, height: int, n: nat) -> bool {
    exists|k: nat| k < n && #[trigger] step_changes(cells, width, height, k)
}

/// A step keeps the number of cells.
pub proof fn lemma_generation_after_len(cells: Seq<Cell>, width: int, height: int, n: nat)
    ensures
        generation_after(cells, width, height, n).len() == cells.len(),
    decreases n,
{
    if n > 0 {
        lemma_generation_after_len(cells, width, height, (n - 1) as nat);
    }
}

/// Steps compose: `m` steps and then `n` more are `m + n` steps.
pub proof fn lemma_generation_after_add(cells: Seq<Cell>, width: int, height: int, m: nat, n: nat)
    ensures
        generation_after(generation_after(cells, width, height, m), width, height, n)
            == generation_after(cells, width, height, m + n),
    decreases n,
{
    if n > 0 {
        lemma_generation_after_add(cells, width, height, m, (n - 1) as nat);
    }
}

/// Zero steps leave a generation as it is, and change no cell.
pub proof fn lemma_zero_generations(cells: Seq<Cell>, width: int, height: int)
    ensures
        generation_after(cells, width, height, 0) == cells,
        !changed_within(cells, width, height, 0),
{
}

/// A generation that its step leaves unchanged stays as it is for any
/// number of steps.
pub proof fn lemma_still_life(cells: Seq<Cell>, width: int, height: int, n: nat)
    requires
        next_generation(cells, width, height) == cells,
    ensures
        generation_after(cells, width, height, n) == cells,
        !changed_within(cells, width, height, n),
    decreases n,
{
    if n > 0 {
        lemma_still_life(cells, width, height, (n - 1) as nat);
    }
    assert forall|k: nat| k < n implies !#[trigger] step_changes(cells, width, height, k) by {
        lemma_still_life(cells, width, height, k);
    }
}

/// A grid without a live cell has none after any number of generations.
pub proof fn lemma_extinct_stays_extinct(cells: Seq<Cell>, width: int, height: int, n: nat)
    requires
        fills_grid(cells, width, height),
        extinct(cells),
    ensures
        generation_after(cells, width, height, n) == cells,
        extinct(generation_after(cells, width, height, n)),
        !changed_within(cells, width, height, n),
{
    assert forall|i: int| 0 <= i < cells.len() implies next_generation(cells, width, height)[i]
        == cells[i] by {
        lemma_extinct_has_no_neighbours(cells, width, height, i % width, i / width);
    }
    assert(next_generation(cells, width, height) =~= cells);
    lemma_still_life(cells, width, height, n);
}

/// In a grid without a live cell no position has a live neighbour.
pub proof fn lemma_extinct_has_no_neighbours(
    cells: Seq<Cell>,
    width: int,
    height: int,
    x: int,
    y: int,
)
    requires
        fills_grid(cells, width, height),
        extinct(cells),
    ensures
        alive_neighbours(cells, width, height, x, y) == 0,
{
    assert forall|nx: int, ny: int| !alive_at(cells, width, height, nx, ny) by {
        if in_bounds(width, height, nx, ny) {
            lemma_cell_index_bounds(width, height, nx, ny);
        }
    }
}

/// Whether `(x, y)` is one of the four positions of the two by two block
/// whose corner of least coordinates is `(bx, by)`.
pub open spec fn in_block(bx: int, by: int, x: int, y: int) -> bool {
    bx <= x <= bx + 1 && by <= y <= by + 1
}

/// Whether the live cells of the generation are exactly those of the two by
/// two block at `(bx, by)`, which lies within the grid.
pub open spec fn is_block(cells: Seq<Cell>, width: int, height: int, bx: int, by: int) -> bool {
    &&& fills_grid(cells, width, height)
    &&& in_bounds(width, height, bx, by)
    &&& in_bounds(width, height, bx + 1, by + 1)
    &&& forall|x: int, y: int|
        in_bounds(width, height, x, y) ==> cells[#[trigger] cell_index(width, x, y)].alive()
            == in_block(bx, by, x, y)
}

/// A two by two block of live cells in an otherwise dead grid is a still
/// life: it stands unchanged after any number of generations, wherever in
/// the grid it lies.
pub proof fn lemma_block_is_still_life(
    cells: Seq<Cell>,
    width: int,
    height: int,
    bx: int,
    by: int,
    n: nat,
)
    requires
        is_block(cells, width, height, bx, by),
    ensures
        next_generation(cells, width, height) == cells,
        generation_after(cells, width, height, n) == cells,
        !changed_within(cells, width, height, n),
{
    assert forall|x: int, y: int|
        alive_at(cells, width, height, x, y) == in_block(bx, by, x, y) by {
        if in_bounds(width, height, x, y) {
            assert(cells[cell_index(width, x, y)].alive() == in_block(bx, by, x, y));
        }
    }
    assert forall|i: int| 0 <= i < cells.len() implies next_generation(cells, width, height)[i]
        == cells[i] by {
        lemma_index_is_position(width, height, i);
    }
    assert(next_generation(cells, width, height) =~= cells);
    lemma_still_life(cells, width, height, n);
}

} // verus!
