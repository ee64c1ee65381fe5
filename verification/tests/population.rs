use game_of_life::driver::CellsChanged;
use game_of_life::population::{CellBundle, Neighbors, Position, State};
use game_of_life::systems::{update_cells_system, update_neighbors_system};

fn cell(x: i32, y: i32, alive: bool, neighbors: u8) -> CellBundle {
    CellBundle { position: Position { x, y }, state: State(alive), neighbors: Neighbors(neighbors) }
}

fn spawn_block_pattern(world: &mut Vec<CellBundle>) {
    let to_spawn = vec![
        cell(0, 0, true, 0),
        cell(0, 1, true, 0),
        cell(1, 0, true, 0),
        cell(1, 1, true, 0),
    ];

    world.extend(to_spawn);
}

fn spawn_blinker_pattern(world: &mut Vec<CellBundle>) {
    let to_spawn = vec![
        cell(0, 0, false, 0),
        cell(1, 0, true, 0),
        cell(2, 0, false, 0),
        cell(0, 1, false, 0),
        cell(1, 1, true, 0),
        cell(2, 1, false, 0),
        cell(0, 2, false, 0),
        cell(1, 2, true, 0),
        cell(2, 2, false, 0),
    ];

    world.extend(to_spawn);
}

fn spawn_toad_pattern(world: &mut Vec<CellBundle>) {
    let to_spawn = vec![
        cell(0, 0, true, 0),
        cell(0, 1, true, 0),
        cell(0, 2, true, 0),
        cell(1, 1, true, 0),
        cell(1, 2, true, 0),
        cell(1, 3, true, 0),
    ];

    world.extend(to_spawn);
}

fn print_world_state(world: &Vec<CellBundle>) {
    println!("{:?}", world);
}

#[test]
fn mod_test_block_pattern() {
    let mut world: Vec<CellBundle> = Vec::new();
    let mut cells_changed = CellsChanged(false);
    spawn_block_pattern(&mut world);

    update_neighbors_system(&mut world);
    update_cells_system(&mut world, &mut cells_changed);

    let expected = vec![
        cell(0, 0, true, 3),
        cell(0, 1, true, 3),
        cell(1, 0, true, 3),
        cell(1, 1, true, 3),
    ];

    let actual: Vec<CellBundle> = world.clone();

    assert_eq!(expected, actual);

    update_neighbors_system(&mut world);
    update_cells_system(&mut world, &mut cells_changed);

    let actual = world.clone();

    assert_eq!(expected, actual);
}

#[test]
fn mod_test_toad_pattern() {
    let mut world: Vec<CellBundle> = Vec::new();
    let mut cells_changed = CellsChanged(false);
    spawn_toad_pattern(&mut world);

    let expected = vec![
        cell(0, 0, true, 0),
        cell(0, 1, true, 0),
        cell(0, 2, true, 0),
        cell(1, 1, true, 0),
        cell(1, 2, true, 0),
        cell(1, 3, true, 0),
    ];

    let actual: Vec<CellBundle> = world.clone();

    assert_eq!(expected, actual);

    println!("Initial state:");
    print_world_state(&world);

    update_neighbors_system(&mut world);

    println!("After updating neighbors:");
    print_world_state(&world);

    let expected = vec![
        cell(0, 0, true, 2),
        cell(0, 1, true, 4),
        cell(0, 2, true, 4),
        cell(1, 1, true, 4),
        cell(1, 2, true, 4),
        cell(1, 3, true, 2),
    ];

    let actual: Vec<CellBundle> = world.clone();

    assert_eq!(expected, actual);

    update_cells_system(&mut world, &mut cells_changed);
}

#[test]
fn mod_test_blinker_pattern() {
    let mut world: Vec<CellBundle> = Vec::new();
    let mut cells_changed = CellsChanged(false);
    spawn_blinker_pattern(&mut world);

    let expected = vec![
        cell(0, 0, false, 0),
        cell(1, 0, true, 0),
        cell(2, 0, false, 0),
        cell(0, 1, false, 0),
        cell(1, 1, true, 0),
        cell(2, 1, false, 0),
        cell(0, 2, false, 0),
        cell(1, 2, true, 0),
        cell(2, 2, false, 0),
    ];

    let actual: Vec<CellBundle> = world.clone();

    assert_eq!(expected, actual);

    update_neighbors_system(&mut world);
    update_cells_system(&mut world, &mut cells_changed);
    update_neighbors_system(&mut world);

    let expected = vec![
        cell(0, 0, false, 2),
        cell(1, 0, false, 3),
        cell(2, 0, false, 2),
        cell(0, 1, true, 1),
        cell(1, 1, true, 2),
        cell(2, 1, true, 1),
        cell(0, 2, false, 2),
        cell(1, 2, false, 3),
        cell(2, 2, false, 2),
    ];

    let actual: Vec<CellBundle> = world.clone();

    assert_eq!(expected, actual);
}
