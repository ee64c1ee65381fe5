use game_of_life::cell::Cell;
use game_of_life::driver::CellsChanged;
use game_of_life::population::{CellBundle, Grid, Neighbors, Position, State};
use game_of_life::systems::{
    batch_spawn_cells, run_generations, run_simulation_n_times, spawn_cells,
    update_cells_system, update_neighbors_system,
};
use game_of_life::universe::{compute_next_generation, get_alive_neighbours_count};

fn cell(x: i32, y: i32, alive: bool, neighbors: u8) -> CellBundle {
    CellBundle { position: Position { x, y }, state: State(alive), neighbors: Neighbors(neighbors) }
}

#[test]
fn the_plane_of_a_population_has_no_edge_and_does_not_wrap() {
    let mut cells = vec![
        cell(-1, -1, true, 0),
        cell(0, 0, true, 0),
        cell(i32::MAX, 0, true, 0),
        cell(i32::MIN, 0, true, 0),
        cell(i32::MAX, 1, true, 0),
        cell(0, i32::MIN, true, 0),
        cell(0, i32::MAX, true, 0),
    ];
    update_neighbors_system(&mut cells);
    let counts: Vec<u8> = cells.iter().map(|cell| cell.neighbors.0).collect();
    assert_eq!(counts, vec![1, 1, 1, 0, 1, 0, 0]);
}

#[test]
fn a_position_counts_once_however_many_cells_lie_there() {
    let mut cells = vec![cell(0, 0, false, 0), cell(1, 0, true, 0), cell(1, 0, true, 0)];
    update_neighbors_system(&mut cells);
    assert_eq!(cells[0].neighbors, Neighbors(1));
    // A dead cell at a position hides no live one that lies there too.
    let mut cells = vec![cell(0, 0, false, 0), cell(1, 0, true, 0), cell(1, 0, false, 0)];
    update_neighbors_system(&mut cells);
    assert_eq!(cells[0].neighbors, Neighbors(1));
}

#[test]
fn counting_keeps_positions_and_states() {
    let mut cells = vec![cell(5, 5, true, 7), cell(6, 5, false, 7)];
    update_neighbors_system(&mut cells);
    assert_eq!(cells, vec![cell(5, 5, true, 0), cell(6, 5, false, 1)]);
}

#[test]
fn the_rule_pass_reads_the_counts_it_finds() {
    let mut cells =
        vec![cell(0, 0, true, 2), cell(9, 9, true, 4), cell(5, 5, false, 3), cell(7, 7, false, 2)];
    let mut changed = CellsChanged(false);
    update_cells_system(&mut cells, &mut changed);
    assert_eq!(
        cells,
        vec![cell(0, 0, true, 2), cell(9, 9, false, 4), cell(5, 5, true, 3), cell(7, 7, false, 2)]
    );
    assert_eq!(changed, CellsChanged(true));
}

#[test]
fn the_rule_pass_raises_the_flag_only_for_a_change() {
    let mut cells = vec![cell(0, 0, true, 3), cell(1, 0, false, 0)];
    let mut changed = CellsChanged(false);
    update_cells_system(&mut cells, &mut changed);
    assert_eq!(changed, CellsChanged(false));
    let mut raised = CellsChanged(true);
    update_cells_system(&mut cells, &mut raised);
    assert_eq!(raised, CellsChanged(true));
}

#[test]
fn spawned_cells_list_the_grid_row_by_row() {
    let cells = spawn_cells(&Grid { width: 40, height: 30 });
    assert_eq!(cells.len(), 1200);
    for (i, cell) in cells.iter().enumerate() {
        assert_eq!(cell.position, Position { x: (i % 40) as i32, y: (i / 40) as i32 });
        assert_eq!(cell.neighbors, Neighbors(0));
    }
    assert!(cells.iter().any(|cell| cell.state.0));
    assert!(cells.iter().any(|cell| !cell.state.0));
    assert!(spawn_cells(&Grid { width: 0, height: 30 }).is_empty());
}

#[test]
fn a_batch_is_appended_to_the_cells_already_there() {
    let mut cells = vec![cell(-7, -7, true, 5)];
    batch_spawn_cells(&mut cells, 3);
    assert_eq!(cells.len(), 10);
    assert_eq!(cells[0], cell(-7, -7, true, 5));
    for i in 0..9 {
        assert_eq!(cells[1 + i].position, Position { x: (i % 3) as i32, y: (i / 3) as i32 });
        assert_eq!(cells[1 + i].neighbors, Neighbors(0));
    }
    batch_spawn_cells(&mut cells, 0);
    assert_eq!(cells.len(), 10);
}

#[test]
fn a_round_counts_applies_the_rule_and_counts_again() {
    let mut cells = vec![
        cell(0, 0, false, 0),
        cell(1, 0, true, 0),
        cell(2, 0, false, 0),
        cell(0, 1, false, 0),
        cell(1, 1, true, 0),
        cell(2, 1, false, 0),
        cell(0, 2, false, 0),
        cell(1, 2, true, 0),
        cell(2, 2, false, 0),
    ];
    let before = cells.clone();
    let mut changed = CellsChanged(false);
    run_generations(0, &mut cells, &mut changed);
    assert_eq!(cells, before);
    assert_eq!(changed, CellsChanged(false));
    run_generations(1, &mut cells, &mut changed);
    let turned = vec![
        cell(0, 0, false, 2),
        cell(1, 0, false, 3),
        cell(2, 0, false, 2),
        cell(0, 1, true, 1),
        cell(1, 1, true, 2),
        cell(2, 1, true, 1),
        cell(0, 2, false, 2),
        cell(1, 2, false, 3),
        cell(2, 2, false, 2),
    ];
    assert_eq!(cells, turned);
    assert_eq!(changed, CellsChanged(true));
    run_generations(2, &mut cells, &mut changed);
    assert_eq!(cells, turned);
}

#[test]
fn rounds_of_a_still_life_raise_no_flag() {
    let mut cells =
        vec![cell(0, 0, true, 0), cell(0, 1, true, 0), cell(1, 0, true, 0), cell(1, 1, true, 0)];
    let mut changed = CellsChanged(false);
    run_generations(4, &mut cells, &mut changed);
    assert_eq!(changed, CellsChanged(false));
    assert!(cells.iter().all(|cell| cell.state.0 && cell.neighbors == Neighbors(3)));
}

#[test]
fn a_simulated_population_carries_the_counts_of_its_states() {
    let cells = run_simulation_n_times(3, 9);
    assert_eq!(cells.len(), 81);
    for (i, cell) in cells.iter().enumerate() {
        assert_eq!(cell.position, Position { x: (i % 9) as i32, y: (i / 9) as i32 });
    }
    let mut recounted = cells.clone();
    update_neighbors_system(&mut recounted);
    assert_eq!(recounted, cells);
}

#[test]
fn a_population_that_was_not_advanced_is_freshly_spawned() {
    let cells = run_simulation_n_times(0, 5);
    assert_eq!(cells.len(), 25);
    assert!(cells.iter().all(|cell| cell.neighbors == Neighbors(0)));
    assert!(run_simulation_n_times(4, 0).is_empty());
}

#[test]
fn the_word_for_a_state() {
    assert_eq!(State(true).label(), "Alive");
    assert_eq!(State(false).label(), "Dead");
}

#[test]
fn the_passes_over_a_population_agree_with_the_dense_grid() {
    let mut cells = spawn_cells(&Grid { width: 9, height: 12 });
    let dense: Vec<Cell> = cells.iter().map(|cell| Cell::from_alive(cell.state.0)).collect();
    update_neighbors_system(&mut cells);
    for cell in cells.iter() {
        let x = cell.position.x as u32;
        let y = cell.position.y as u32;
        assert_eq!(cell.neighbors.0 as u32, get_alive_neighbours_count(&dense, 9, 12, x, y));
    }
    let mut changed = CellsChanged(false);
    update_cells_system(&mut cells, &mut changed);
    let (next, dense_changed) = compute_next_generation(&dense, 9, 12);
    let states: Vec<Cell> = cells.iter().map(|cell| Cell::from_alive(cell.state.0)).collect();
    assert_eq!(states, next);
    assert_eq!(changed.0, dense_changed);
}
