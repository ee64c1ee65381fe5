//! The passes over a population: counting neighbours, applying the rule,
//! and seeding.
//!
//! A generation advance is a counting pass followed by a rule pass. The rule
//! pass reads only the counts, and the counting pass only the states, so no
//! cell is decided from a state that its own generation has replaced.

use vstd::prelude::*;
use std::collections::HashSet;
use crate::driver::CellsChanged;
use crate::neighbourhood::{lemma_index_is_position, one_if};
use crate::population::{
    after_rounds, changed_in_rounds, counted, freshly_spawned, lemma_counted_is_idempotent,
    lemma_rounds_keep_positions, population_alive_at, round_changes, row_major_position, ruled,
    states_differ, CellBundle, Grid, Neighbors, Position, State,
};
use crate::position_index::{
    counted_from_index, indexed_alive_at, indexed_neighbours, key_of, lemma_key_of_is_injective,
    position_key, CellPositions,
};
use crate::random::gen_ratio;
use crate::rule::next_state;

verus! {

/// Whether the set holds the keys of exactly the positions at which some
/// cell of the population is alive.
pub open spec fn holds_live_positions(keys: Set<u64>, cells: Seq<CellBundle>) -> bool {
    forall|position: Position|
        keys.contains(#[trigger] key_of(position)) <==> population_alive_at(
            cells,
            position.x as int,
            position.y as int,
        )
}

/// Collects the keys of the positions at which some cell is alive.
fn live_position_keys(cells: &Vec<CellBundle>) -> (live: HashSet<u64>)
    ensures
        holds_live_positions(live@, cells@),
{
    let mut live: HashSet<u64> = HashSet::new();
    let mut i: usize = 0;
    while i < cells.len()
        invariant
            i <= cells@.len(),
            holds_live_positions(live@, cells@.take(i as int)),
        decreases cells@.len() - i,
    {
        let cell = cells[i];
        if cell.state.0 {
            live.insert(position_key(cell.position));
        }
        proof {
            let shorter = cells@.take(i as int);
            let longer = cells@.take(i + 1);
            assert forall|position: Position|
                live@.contains(#[trigger] key_of(position)) <==> population_alive_at(
                    longer,
                    position.x as int,
                    position.y as int,
                ) by {
                let x = position.x as int;
                let y = position.y as int;
                if population_alive_at(shorter, x, y) {
                    let j = choose|j: int|
                        0 <= j < shorter.len() && (#[trigger] shorter[j]).state.0
                            && shorter[j].position.x == x && shorter[j].position.y == y;
                    assert(longer[j].state.0);
                }
                if population_alive_at(longer, x, y) {
                    let j = choose|j: int|
                        0 <= j < longer.len() && (#[trigger] longer[j]).state.0
                            && longer[j].position.x == x && longer[j].position.y == y;
                    if j < i {
                        assert(shorter[j].state.0);
                    }
                }
                if cell.state.0 && cell.position == position {
                    assert(longer[i as int].state.0);
                }
                if key_of(position) == key_of(cell.position) {
                    lemma_key_of_is_injective(position, cell.position);
                }
            }
        }
        i += 1;
    }
    assert(cells@.take(cells@.len() as int) =~= cells@);
    live
}

/// One or zero, as some cell of the population is alive at `(x, y)` or
/// none is.
fn population_live_at(
    live: &HashSet<u64>,
    Ghost(cells): Ghost<Seq<CellBundle>>,
    x: i64,
    y: i64,
) -> (n: u8)
    requires
        holds_live_positions(live@, cells),
    ensures
        n == one_if(population_alive_at(cells, x as int, y as int)),
{
    if x < i32::MIN as i64 || x > i32::MAX as i64 || y < i32::MIN as i64 || y > i32::MAX as i64 {
        return 0;
    }
    let position = Position { x: x as i32, y: y as i32 };
    let key = position_key(position);
    if live.contains(&key) {
        1
    } else {
        0
    }
}

/// Counts for every cell the live cells among its eight neighbours, from
/// the states of the population as it stands, and writes the count to the
/// cell. A position counts once, however many cells lie there.
pub fn update_neighbors_system(cells: &mut Vec<CellBundle>)
    ensures
        final(cells)@ == counted(old(cells)@),
{
    let ghost before = cells@;
    let live = live_position_keys(cells);
    let mut i: usize = 0;
    while i < cells.len()
        invariant
            i <= cells@.len(),
            cells@.len() == before.len(),
            holds_live_positions(live@, before),
            forall|j: int| 0 <= j < i ==> cells@[j] == counted(before)[j],
            forall|j: int| i <= j < cells@.len() ==> cells@[j] == before[j],
        decreases cells@.len() - i,
    {
        let cell = cells[i];
        let x = cell.position.x as i64;
        let y = cell.position.y as i64;
        let mut count: u8 = 0;
        count += population_live_at(&live, Ghost(before), x - 1, y - 1);
        count += population_live_at(&live, Ghost(before), x - 1, y);
        count += population_live_at(&live, Ghost(before), x - 1, y + 1);
        count += population_live_at(&live, Ghost(before), x, y - 1);
        count += population_live_at(&live, Ghost(before), x, y + 1);
        count += population_live_at(&live, Ghost(before), x + 1, y - 1);
        count += population_live_at(&live, Ghost(before), x + 1, y);
        count += population_live_at(&live, Ghost(before), x + 1, y + 1);
        cells.set(
            i,
            CellBundle { position: cell.position, state: cell.state, neighbors: Neighbors(count) },
        );
        i += 1;
    }
}

/// One or zero, as the index shows a live cell at the grid position
/// `(x, y)` or not.
fn indexed_live_at(cell_positions: &CellPositions, grid: &Grid, x: i64, y: i64) -> (n: u8)
    ensures
        n == one_if(indexed_alive_at(cell_positions@, *grid, x as int, y as int)),
{
    if x < 0 || x >= grid.width as i64 || y < 0 || y >= grid.height as i64 {
        return 0;
    }
    if x > i32::MAX as i64 || y > i32::MAX as i64 {
        return 0;
    }
    match cell_positions.get(Position { x: x as i32, y: y as i32 }) {
        Some(alive) => if alive {
            1
        } else {
            0
        },
        None => 0,
    }
}

/// Counts the live cells among the neighbours of one position within the
/// grid, by lookup in the position index. What lies outside the grid does
/// not count, and no cell is read but through the index.
pub fn count_indexed_neighbours(
    cell_positions: &CellPositions,
    grid: &Grid,
    position: Position,
) -> (count: u8)
    ensures
        count == indexed_neighbours(
            cell_positions@,
            *grid,
            position.x as int,
            position.y as int,
        ),
        count <= 8,
{
    let x = position.x as i64;
    let y = position.y as i64;
    let mut count: u8 = 0;
    count += indexed_live_at(cell_positions, grid, x - 1, y - 1);
    count += indexed_live_at(cell_positions, grid, x - 1, y);
    count += indexed_live_at(cell_positions, grid, x - 1, y + 1);
    count += indexed_live_at(cell_positions, grid, x, y - 1);
    count += indexed_live_at(cell_positions, grid, x, y + 1);
    count += indexed_live_at(cell_positions, grid, x + 1, y - 1);
    count += indexed_live_at(cell_positions, grid, x + 1, y);
    count += indexed_live_at(cell_positions, grid, x + 1, y + 1);
    count
}

/// Counts for every cell the live cells among its neighbours within the
/// grid, by lookup in the position index, and writes the count to the cell.
/// The states are read from the index alone, as it was last rebuilt.
pub fn update_neighbors_brute_force_system(
    cells: &mut Vec<CellBundle>,
    grid: &Grid,
    cell_positions: &CellPositions,
)
    ensures
        final(cells)@ == counted_from_index(old(cells)@, cell_positions@, *grid),
{
    let ghost before = cells@;
    let mut i: usize = 0;
    while i < cells.len()
        invariant
            i <= cells@.len(),
            cells@.len() == before.len(),
            forall|j: int|
                0 <= j < i ==> cells@[j] == counted_from_index(before, cell_positions@, *grid)[j],
            forall|j: int| i <= j < cells@.len() ==> cells@[j] == before[j],
        decreases cells@.len() - i,
    {
        let cell = cells[i];
        let count = count_indexed_neighbours(cell_positions, grid, cell.position);
        cells.set(
            i,
            CellBundle { position: cell.position, state: cell.state, neighbors: Neighbors(count) },
        );
        i += 1;
    }
}

/// Applies the rule to every cell, each from its own state and the count
/// it carries, and raises the flag if the state of some cell changed. A flag
/// that was already raised stays raised.
pub fn update_cells_system(cells: &mut Vec<CellBundle>, cells_changed: &mut CellsChanged)
    ensures
        final(cells)@ == ruled(old(cells)@),
        final(cells_changed).0 == (old(cells_changed).0 || states_differ(
            old(cells)@,
            final(cells)@,
        )),
{
    let ghost before = cells@;
    let ghost raised = cells_changed.0;
    let mut i: usize = 0;
    while i < cells.len()
        invariant
            i <= cells@.len(),
            cells@.len() == before.len(),
            forall|j: int| 0 <= j < i ==> cells@[j] == ruled(before)[j],
            forall|j: int| i <= j < cells@.len() ==> cells@[j] == before[j],
            cells_changed.0 == (raised || exists|j: int|
                0 <= j < i && (#[trigger] before[j]).state != ruled(before)[j].state),
        decreases cells@.len() - i,
    {
        let cell = cells[i];
        let state = State(next_state(cell.state.0, cell.neighbors.0));
        if state.0 != cell.state.0 {
            cells_changed.0 = true;
        }
        cells.set(i, CellBundle { position: cell.position, state, neighbors: cell.neighbors });
        proof {
            if state.0 != cell.state.0 {
                assert(before[i as int].state != ruled(before)[i as int].state);
            }
        }
        i += 1;
    }
}

/// The chance that a spawned cell is alive is one in two: this is the one.
pub const ALIVE_CHANCE_NUMERATOR: u32 = 1;

/// The chance that a spawned cell is alive is one in two: this is the two.
pub const ALIVE_CHANCE_DENOMINATOR: u32 = 2;

/// Appends the cells of a `width` by `height` grid, row by row, each
/// alive or dead by a draw of its own with equal chance.
fn spawn_rows(cells: &mut Vec<CellBundle>, width: usize, height: usize)
    requires
        width <= 0x8000_0000,
        height <= 0x8000_0000,
        width * height <= usize::MAX,
    ensures
        final(cells)@.len() == old(cells)@.len() + width * height,
        final(cells)@.subrange(0, old(cells)@.len() as int) == old(cells)@,
        freshly_spawned(
            final(cells)@.subrange(old(cells)@.len() as int, final(cells)@.len() as int),
            width as int,
            height as int,
        ),
{
    let ghost before = cells@;
    let mut rng = rand::thread_rng();
    let count = width * height;
    let mut i: usize = 0;
    while i < count
        invariant
            i <= count,
            count == width * height,
            width <= 0x8000_0000,
            height <= 0x8000_0000,
            cells@.len() == before.len() + i,
            cells@.subrange(0, before.len() as int) == before,
            forall|j: int|
                0 <= j < i ==> (#[trigger] cells@[before.len() + j]).position == row_major_position(
                    width as int,
                    j,
                ) && cells@[before.len() + j].neighbors == Neighbors(0),
        decreases count - i,
    {
        proof {
            lemma_index_is_position(width as int, height as int, i as int);
        }
        let x = i % width;
        let y = i / width;
        let position = Position { x: x as i32, y: y as i32 };
        let state = State(gen_ratio(&mut rng, ALIVE_CHANCE_NUMERATOR, ALIVE_CHANCE_DENOMINATOR));
        let ghost earlier = cells@;
        cells.push(CellBundle { position, state, neighbors: Neighbors(0) });
        proof {
            assert(cells@.subrange(0, before.len() as int) =~= earlier.subrange(
                0,
                before.len() as int,
            ));
        }
        i += 1;
    }
    proof {
        let spawned = cells@.subrange(before.len() as int, cells@.len() as int);
        assert forall|j: int| 0 <= j < spawned.len() implies (#[trigger] spawned[j]).position
            == row_major_position(width as int, j) && spawned[j].neighbors == Neighbors(0) by {
            assert(spawned[j] == cells@[before.len() + j]);
        }
    }
}

/// Appends to the population the cells of a square grid of side `n`, row
/// by row, each alive or dead by chance. The cells already there stay.
pub fn batch_spawn_cells(cells: &mut Vec<CellBundle>, n: usize)
    requires
        n <= 0x8000_0000,
        n * n <= usize::MAX,
    ensures
        final(cells)@.len() == old(cells)@.len() + n * n,
        final(cells)@.subrange(0, old(cells)@.len() as int) == old(cells)@,
        freshly_spawned(
            final(cells)@.subrange(old(cells)@.len() as int, final(cells)@.len() as int),
            n as int,
            n as int,
        ),
{
    spawn_rows(cells, n, n);
}

/// Makes the population of a grid: one cell for each position, row by row,
/// each alive or dead by chance.
pub fn spawn_cells(grid: &Grid) -> (cells: Vec<CellBundle>)
    requires
        grid.width <= 0x8000_0000,
        grid.height <= 0x8000_0000,
        grid.width * grid.height <= usize::MAX,
    ensures
        freshly_spawned(cells@, grid.width as int, grid.height as int),
{
    let mut cells: Vec<CellBundle> = Vec::new();
    spawn_rows(&mut cells, grid.width as usize, grid.height as usize);
    assert(cells@.subrange(0, cells@.len() as int) =~= cells@);
    cells
}

/// Some round among the first `n + 1` changes a state exactly if one among
/// the first `n` does, or the last one does.
proof fn lemma_changed_in_rounds_step(cells: Seq<CellBundle>, n: nat)
    ensures
        changed_in_rounds(cells, n + 1) == (changed_in_rounds(cells, n) || round_changes(cells, n)),
{
}

/// Advances the population by `n` rounds: in each, the neighbours are
/// counted, the rule is applied, and the neighbours are counted again. The
/// flag is raised if some round changed the state of a cell.
pub fn run_generations(n: usize, cells: &mut Vec<CellBundle>, cells_changed: &mut CellsChanged)
    ensures
        final(cells)@ == after_rounds(old(cells)@, n as nat),
        final(cells_changed).0 == (old(cells_changed).0 || changed_in_rounds(
            old(cells)@,
            n as nat,
        )),
{
    let ghost before = cells@;
    let ghost raised = cells_changed.0;
    let mut made: usize = 0;
    while made < n
        invariant
            made <= n,
            cells@ == after_rounds(before, made as nat),
            cells_changed.0 == (raised || changed_in_rounds(before, made as nat)),
        decreases n - made,
    {
        update_neighbors_system(cells);
        update_cells_system(cells, cells_changed);
        update_neighbors_system(cells);
        proof {
            lemma_changed_in_rounds_step(before, made as nat);
        }
        made += 1;
    }
}

/// Whether the population is what `n` rounds make of some freshly spawned
/// square of the given side.
pub open spec fn grown_from_a_square(cells: Seq<CellBundle>, side: int, n: nat) -> bool {
    exists|seeded: Seq<CellBundle>|
        freshly_spawned(seeded, side, side) && cells == #[trigger] after_rounds(seeded, n)
}

/// Seeds a square population of side `size` by chance and advances it by
/// `n` rounds. The result is what the rounds make of the seed: it lists the
/// positions of the square row by row, and once a round has been made, every
/// cell carries the count that belongs to the states as they stand. Which
/// cells live is left to the seed.
pub fn run_simulation_n_times(n: usize, size: usize) -> (cells: Vec<CellBundle>)
    requires
        size <= 0x8000_0000,
        size * size <= usize::MAX,
    ensures
        grown_from_a_square(cells@, size as int, n as nat),
        cells@.len() == size * size,
        forall|i: int|
            0 <= i < cells@.len() ==> (#[trigger] cells@[i]).position == row_major_position(
                size as int,
                i,
            ),
        n > 0 ==> counted(cells@) == cells@,
{
    let mut cells: Vec<CellBundle> = Vec::new();
    batch_spawn_cells(&mut cells, size);
    assert(cells@.subrange(0, cells@.len() as int) =~= cells@);
    let ghost seeded = cells@;
    let mut cells_changed = CellsChanged(false);
    run_generations(n, &mut cells, &mut cells_changed);
    proof {
        assert(freshly_spawned(seeded, size as int, size as int) && cells@ == after_rounds(
            seeded,
            n as nat,
        ));
        lemma_rounds_keep_positions(seeded, n as nat);
        if n > 0 {
            lemma_counted_is_idempotent(ruled(counted(after_rounds(seeded, (n - 1) as nat))));
        }
    }
    cells
}

} // verus!
