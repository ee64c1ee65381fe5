//! The bounded Moore neighbourhood of a grid position, and the number of
//! live cells in it.
//!
//! A generation is a `Seq<Cell>` in row-major order: the cell at column `x`
//! of row `y` stands at index `y * width + x`. The grid does not wrap: a
//! position outside `0 <= x < width`, `0 <= y < height` holds no cell and
//! never counts.

use vstd::prelude::*;
use crate::cell::Cell;

verus! {

/// Whether `(x, y)` is a position of a `width` by `height` grid.
pub open spec fn in_bounds(width: int, height: int, x: int, y: int) -> bool {
    0 <= x < width && 0 <= y < height
}

/// The row-major index of position `(x, y)`.
pub open spec fn cell_index(width: int, x: int, y: int) -> int {
    y * width + x
}

/// Whether a generation has as many cells as the grid has positions.
pub open spec fn fills_grid(cells: Seq<Cell>, width: int, height: int) -> bool {
    cells.len() == width * height
}

/// Whether `(x, y)` is a position of the grid that holds a live cell.
pub open spec fn alive_at(cells: Seq<Cell>, width: int, height: int, x: int, y: int) -> bool {
    in_bounds(width, height, x, y) && cells[cell_index(width, x, y)].alive()
}

/// One for a true condition, zero for a false one.
pub open spec fn one_if(condition: bool) -> int {
    if condition {
        1
    } else {
        0
    }
}

/// The number of live cells among the up to eight positions that touch
/// `(x, y)` horizontally, vertically or diagonally.
pub open spec fn alive_neighbours(
    cells: Seq<Cell>,
    width: int,
    height: int,
    x: int,
    y: int,
) -> int {
    one_if(alive_at(cells, width, height, x - 1, y - 1))
        + one_if(alive_at(cells, width, height, x - 1, y))
        + one_if(alive_at(cells, width, height, x - 1, y + 1))
        + one_if(alive_at(cells, width, height, x, y - 1))
        + one_if(alive_at(cells, width, height, x, y + 1))
        + one_if(alive_at(cells, width, height, x + 1, y - 1))
        + one_if(alive_at(cells, width, height, x + 1, y))
        + one_if(alive_at(cells, width, height, x + 1, y + 1))
}

/// Whether `(nx, ny)` touches `(x, y)` without being `(x, y)` itself.
pub open spec fn touches(x: int, y: int, nx: int, ny: int) -> bool {
    x - 1 <= nx <= x + 1 && y - 1 <= ny <= y + 1 && !(nx == x && ny == y)
}

/// The positions around `(x, y)` that hold a live cell.
pub open spec fn live_neighbour_positions(
    cells: Seq<Cell>,
    width: int,
    height: int,
    x: int,
    y: int,
) -> Set<(int, int)> {
    Set::new(|p: (int, int)| touches(x, y, p.0, p.1) && alive_at(cells, width, height, p.0, p.1))
}

/// Every position of the grid has an index below the number of cells, in
/// the stretch of indices that belongs to its row.
pub proof fn lemma_cell_index_bounds(width: int, height: int, x: int, y: int)
    by (nonlinear_arith)
    requires
        in_bounds(width, height, x, y),
    ensures
        0 <= cell_index(width, x, y) < width * height,
        y * width <= cell_index(width, x, y) < (y + 1) * width,
{
}

/// The position that an index stands for: its remainder by the width is the
/// column, its quotient the row.
pub proof fn lemma_cell_index_position(width: int, height: int, x: int, y: int)
    requires
        in_bounds(width, height, x, y),
    ensures
        cell_index(width, x, y) % width == x,
        cell_index(width, x, y) / width == y,
{
    vstd::arithmetic::div_mod::lemma_fundamental_div_mod_converse(
        cell_index(width, x, y),
        width,
        y,
        x,
    );
}

/// Every index below the number of cells stands for a position of the grid.
pub proof fn lemma_index_is_position(width: int, height: int, i: int)
    requires
        0 <= i < width * height,
        0 <= width,
        0 <= height,
    ensures
        in_bounds(width, height, i % width, i / width),
        cell_index(width, i % width, i / width) == i,
{
    assert(width > 0) by (nonlinear_arith)
        requires
            0 <= i < width * height,
            0 <= width,
    ;
    vstd::arithmetic::div_mod::lemma_fundamental_div_mod(i, width);
    vstd::arithmetic::div_mod::lemma_mod_bound(i, width);
    let q = i / width;
    let r = i % width;
    assert(0 <= q < height) by (nonlinear_arith)
        requires
            i == width * q + r,
            0 <= r < width,
            0 <= i < width * height,
    ;
    assert(width * q == q * width) by (nonlinear_arith);
}

/// Adds `p` to a set of positions, if `present` says so.
proof fn lemma_add_position(s: Set<(int, int)>, p: (int, int), present: bool) -> (r: Set<
    (int, int),
>)
    requires
        s.finite(),
        !s.contains(p),
    ensures
        r.finite(),
        r.len() == s.len() + one_if(present),
        forall|q: (int, int)| r.contains(q) <==> s.contains(q) || (present && q == p),
{
    if present {
        s.insert(p)
    } else {
        s
    }
}

/// The count of live neighbours lies between zero and eight, and it is the
/// number of positions around `(x, y)` that hold a live cell.
pub proof fn lemma_alive_neighbours_counts_positions(
    cells: Seq<Cell>,
    width: int,
    height: int,
    x: int,
    y: int,
)
    ensures
        0 <= alive_neighbours(cells, width, height, x, y) <= 8,
        live_neighbour_positions(cells, width, height, x, y).finite(),
        live_neighbour_positions(cells, width, height, x, y).len() == alive_neighbours(
            cells,
            width,
            height,
            x,
            y,
        ),
{
    let s0 = Set::<(int, int)>::empty();
    let s1 = lemma_add_position(s0, (x - 1, y - 1), alive_at(cells, width, height, x - 1, y - 1));
    let s2 = lemma_add_position(s1, (x - 1, y), alive_at(cells, width, height, x - 1, y));
    let s3 = lemma_add_position(s2, (x - 1, y + 1), alive_at(cells, width, height, x - 1, y + 1));
    let s4 = lemma_add_position(s3, (x, y - 1), alive_at(cells, width, height, x, y - 1));
    let s5 = lemma_add_position(s4, (x, y + 1), alive_at(cells, width, height, x, y + 1));
    let s6 = lemma_add_position(s5, (x + 1, y - 1), alive_at(cells, width, height, x + 1, y - 1));
    let s7 = lemma_add_position(s6, (x + 1, y), alive_at(cells, width, height, x + 1, y));
    let s8 = lemma_add_position(s7, (x + 1, y + 1), alive_at(cells, width, height, x + 1, y + 1));
    let live = live_neighbour_positions(cells, width, height, x, y);
    assert(s8 =~= live);
}

} // verus!
