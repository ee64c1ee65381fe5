use game_of_life::cell::Cell;
use game_of_life::error::GridError;
use game_of_life::universe::{
    cell_from_draw, get_alive_neighbours_count, get_cell_by_position, initialize_cells, randomize,
    set_cell_by_position, Universe,
};

fn universe_with(width: u32, height: u32, live: &[(u32, u32)]) -> Universe {
    let mut universe = Universe::create(width, height).unwrap();
    for &(x, y) in live {
        universe.set(x, y, Cell::Alive).unwrap();
    }
    universe
}

#[test]
fn create_makes_a_dead_grid_of_the_given_extent() {
    let universe = Universe::create(7, 3).unwrap();
    assert_eq!(universe.width, 7);
    assert_eq!(universe.height, 3);
    assert_eq!(universe.cells.len(), 21);
    assert!(universe.cells.iter().all(|cell| *cell == Cell::Dead));
}

#[test]
fn create_refuses_a_width_of_zero() {
    assert_eq!(Universe::create(0, 5).unwrap_err(), GridError::ConfigurationError);
}

#[test]
fn create_refuses_a_height_of_zero() {
    assert_eq!(Universe::create(5, 0).unwrap_err(), GridError::ConfigurationError);
    assert_eq!(Universe::create(0, 0).unwrap_err(), GridError::ConfigurationError);
}

#[test]
fn create_accepts_a_single_cell() {
    let universe = Universe::create(1, 1).unwrap();
    assert_eq!(universe.cells, vec![Cell::Dead]);
}

#[test]
fn the_default_universe_is_empty() {
    let universe = Universe::default();
    assert_eq!(universe.width, 0);
    assert_eq!(universe.height, 0);
    assert!(universe.cells.is_empty());
}

#[test]
fn get_reads_what_set_wrote() {
    let mut universe = Universe::create(4, 3).unwrap();
    assert_eq!(universe.set(3, 1, Cell::Alive), Ok(()));
    assert_eq!(universe.get(3, 1), Ok(Cell::Alive));
    assert_eq!(universe.get(1, 3 - 1), Ok(Cell::Dead));
    assert_eq!(universe.cells[1 * 4 + 3], Cell::Alive);
    assert_eq!(universe.cells.iter().filter(|cell| **cell == Cell::Alive).count(), 1);
    assert_eq!(universe.set(3, 1, Cell::Dead), Ok(()));
    assert_eq!(universe.get(3, 1), Ok(Cell::Dead));
}

#[test]
fn get_refuses_a_coordinate_outside_the_grid() {
    let universe = Universe::create(4, 3).unwrap();
    assert_eq!(universe.get(4, 0), Err(GridError::IndexOutOfBounds));
    assert_eq!(universe.get(0, 3), Err(GridError::IndexOutOfBounds));
    assert_eq!(universe.get(u32::MAX, u32::MAX), Err(GridError::IndexOutOfBounds));
    assert_eq!(universe.get(3, 2), Ok(Cell::Dead));
}

#[test]
fn set_refuses_a_coordinate_outside_the_grid_and_changes_nothing() {
    let mut universe = universe_with(4, 3, &[(1, 1)]);
    let before = universe.cells.clone();
    assert_eq!(universe.set(4, 1, Cell::Alive), Err(GridError::IndexOutOfBounds));
    assert_eq!(universe.set(1, 3, Cell::Alive), Err(GridError::IndexOutOfBounds));
    assert_eq!(universe.cells, before);
}

#[test]
fn a_column_beyond_the_width_is_not_the_next_row() {
    // Column 4 of row 0 would share its index with column 0 of row 1.
    let universe = universe_with(4, 3, &[(0, 1)]);
    assert_eq!(universe.get(4, 0), Err(GridError::IndexOutOfBounds));
}

#[test]
fn cells_are_stored_row_by_row() {
    let mut cells = initialize_cells(3, 2);
    set_cell_by_position(&mut cells, 3, 2, 1, Cell::Alive);
    assert_eq!(
        cells,
        vec![Cell::Dead, Cell::Dead, Cell::Dead, Cell::Dead, Cell::Dead, Cell::Alive]
    );
    assert_eq!(*get_cell_by_position(&cells, 3, 2, 1), Cell::Alive);
    assert_eq!(*get_cell_by_position(&cells, 3, 1, 1), Cell::Dead);
    set_cell_by_position(&mut cells, 3, 0, 0, Cell::Alive);
    assert_eq!(*get_cell_by_position(&cells, 3, 0, 0), Cell::Alive);
}

#[test]
fn initialize_cells_of_an_empty_grid_is_empty() {
    assert!(initialize_cells(0, 9).is_empty());
    assert!(initialize_cells(9, 0).is_empty());
}

#[test]
fn a_draw_of_zero_is_dead_and_any_other_alive() {
    assert_eq!(cell_from_draw(0), Cell::Dead);
    assert_eq!(cell_from_draw(1), Cell::Alive);
    assert_eq!(cell_from_draw(7), Cell::Alive);
}

#[test]
fn randomize_keeps_the_number_of_cells_and_draws_both_states() {
    let mut cells = initialize_cells(64, 64);
    randomize(&mut cells);
    assert_eq!(cells.len(), 64 * 64);
    assert!(cells.iter().any(|cell| *cell == Cell::Alive));
    assert!(cells.iter().any(|cell| *cell == Cell::Dead));
}

#[test]
fn randomize_on_a_universe_keeps_its_extent() {
    let mut universe = Universe::create(32, 16).unwrap();
    universe.randomize();
    assert_eq!(universe.width, 32);
    assert_eq!(universe.height, 16);
    assert_eq!(universe.cells.len(), 32 * 16);
    assert!(universe.cells.iter().any(|cell| *cell == Cell::Alive));
}

#[test]
fn neighbour_counts_of_a_full_grid() {
    let live: Vec<(u32, u32)> = (0..3).flat_map(|y| (0..3).map(move |x| (x, y))).collect();
    let universe = universe_with(3, 3, &live);
    let count = |x, y| get_alive_neighbours_count(&universe.cells, 3, 3, x, y);
    assert_eq!(count(1, 1), 8);
    assert_eq!(count(0, 0), 3);
    assert_eq!(count(2, 0), 3);
    assert_eq!(count(0, 2), 3);
    assert_eq!(count(2, 2), 3);
    assert_eq!(count(1, 0), 5);
    assert_eq!(count(0, 1), 5);
    assert_eq!(count(2, 1), 5);
    assert_eq!(count(1, 2), 5);
}

#[test]
fn neighbour_counts_of_a_blinker() {
    let universe = universe_with(5, 5, &[(2, 1), (2, 2), (2, 3)]);
    let expected: [[u32; 5]; 5] = [
        [0, 1, 1, 1, 0],
        [0, 2, 1, 2, 0],
        [0, 3, 2, 3, 0],
        [0, 2, 1, 2, 0],
        [0, 1, 1, 1, 0],
    ];
    for y in 0..5u32 {
        for x in 0..5u32 {
            let count = get_alive_neighbours_count(&universe.cells, 5, 5, x, y);
            assert_eq!(count, expected[y as usize][x as usize], "at ({}, {})", x, y);
            assert!(count <= 8);
        }
    }
}

#[test]
fn the_count_leaves_out_the_cell_itself() {
    let universe = universe_with(3, 3, &[(1, 1)]);
    assert_eq!(get_alive_neighbours_count(&universe.cells, 3, 3, 1, 1), 0);
    assert_eq!(get_alive_neighbours_count(&universe.cells, 3, 3, 0, 0), 1);
}

#[test]
fn the_grid_does_not_wrap_around() {
    // Live cells along the right and the bottom edge touch nothing on the
    // left or the top edge.
    let universe = universe_with(4, 4, &[(3, 0), (3, 1), (3, 2), (3, 3), (0, 3), (1, 3), (2, 3)]);
    assert_eq!(get_alive_neighbours_count(&universe.cells, 4, 4, 0, 0), 0);
    assert_eq!(get_alive_neighbours_count(&universe.cells, 4, 4, 0, 1), 0);
    assert_eq!(get_alive_neighbours_count(&universe.cells, 4, 4, 1, 0), 0);
    assert_eq!(get_alive_neighbours_count(&universe.cells, 4, 4, 2, 2), 5);
}

#[test]
fn a_position_outside_the_grid_has_the_neighbours_that_lie_inside() {
    let universe = universe_with(2, 2, &[(1, 0), (1, 1)]);
    assert_eq!(get_alive_neighbours_count(&universe.cells, 2, 2, 2, 0), 2);
    assert_eq!(get_alive_neighbours_count(&universe.cells, 2, 2, 2, 2), 1);
    assert_eq!(get_alive_neighbours_count(&universe.cells, 2, 2, 3, 0), 0);
    assert_eq!(get_alive_neighbours_count(&universe.cells, 2, 2, u32::MAX, u32::MAX), 0);
}

#[test]
fn a_single_row_has_neighbours_to_the_left_and_right_only() {
    let universe = universe_with(5, 1, &[(0, 0), (1, 0), (2, 0), (3, 0), (4, 0)]);
    assert_eq!(get_alive_neighbours_count(&universe.cells, 5, 1, 0, 0), 1);
    assert_eq!(get_alive_neighbours_count(&universe.cells, 5, 1, 2, 0), 2);
    assert_eq!(get_alive_neighbours_count(&universe.cells, 5, 1, 4, 0), 1);
}
