//! What the user's input decides: whether the simulation runs, how a click
//! places cells, and what a click does to the population.
//!
//! The functions here take the input as plain values. Reading the keyboard
//! and the mouse is left to the caller.

use vstd::prelude::*;
use crate::driver::CellsChanged;
use crate::population::{occupied, CellBundle, Position, State};
use crate::random::gen_ratio;
use crate::systems::{ALIVE_CHANCE_DENOMINATOR, ALIVE_CHANCE_NUMERATOR};

verus! {

/// Whether the simulation is advancing.
#[derive(Debug, Clone, Copy, PartialEq, Eq, Hash, Default, Structural)]
pub enum SimulationState {
    #[default]
    Paused,
    Running,
    Exit,
}

/// What a click on a cell does.
#[derive(Debug, Clone, Copy, PartialEq, Eq, Structural)]
pub enum PlacementMode {
    /// The cell changes from dead to alive or from alive to dead.
    Single,
    /// The cell is left as it is.
    Block,
    /// The cell becomes alive or dead by chance.
    Random,
}

/// The mode that the number keys select: the first of the three keys that
/// is pressed decides, and without a key the mode stays.
pub open spec fn selected_mode(current: PlacementMode, key1: bool, key2: bool, key3: bool)
    -> PlacementMode {
    if key1 {
        PlacementMode::Single
    } else if key2 {
        PlacementMode::Block
    } else if key3 {
        PlacementMode::Random
    } else {
        current
    }
}

/// Sets the placement mode from the number keys just pressed.
pub fn handle_placement_mode(placement_mode: &mut PlacementMode, key1: bool, key2: bool, key3: bool)
    ensures
        *final(placement_mode) == selected_mode(*old(placement_mode), key1, key2, key3),
{
    if key1 {
        *placement_mode = PlacementMode::Single;
    } else if key2 {
        *placement_mode = PlacementMode::Block;
    } else if key3 {
        *placement_mode = PlacementMode::Random;
    }
}

/// The state asked for when the space bar is pressed: a paused simulation
/// is set running, and any other is paused. Without the key nothing is
/// asked for.
pub fn toggle_simulation_system(simulation_state: SimulationState, space_pressed: bool) -> (next:
    Option<SimulationState>)
    ensures
        next == (if !space_pressed {
            None
        } else if simulation_state == SimulationState::Paused {
            Some(SimulationState::Running)
        } else {
            Some(SimulationState::Paused)
        }),
{
    if space_pressed {
        if simulation_state == SimulationState::Paused {
            Some(SimulationState::Running)
        } else {
            Some(SimulationState::Paused)
        }
    } else {
        None
    }
}

/// The states asked for, in order, when the step key is pressed: a paused
/// simulation is set running and at once paused again. Otherwise nothing is
/// asked for.
pub fn do_one_step_system(simulation_state: SimulationState, step_pressed: bool) -> (asked: Vec<
    SimulationState,
>)
    ensures
        asked@ == (if step_pressed && simulation_state == SimulationState::Paused {
            seq![SimulationState::Running, SimulationState::Paused]
        } else {
            Seq::<SimulationState>::empty()
        }),
{
    let mut asked: Vec<SimulationState> = Vec::new();
    if step_pressed && simulation_state == SimulationState::Paused {
        asked.push(SimulationState::Running);
        asked.push(SimulationState::Paused);
    }
    asked
}

/// The state of a clicked cell after the click, with the draw that decides
/// it in the mode `Random`.
pub open spec fn clicked_state(mode: PlacementMode, state: State, draw: bool) -> State {
    match mode {
        PlacementMode::Single => State(!state.0),
        PlacementMode::Block => state,
        PlacementMode::Random => State(draw),
    }
}

/// Decides the state of a clicked cell.
pub fn place(mode: PlacementMode, state: State, draw: bool) -> (placed: State)
    ensures
        placed == clicked_state(mode, state, draw),
{
    match mode {
        PlacementMode::Single => State(!state.0),
        PlacementMode::Block => state,
        PlacementMode::Random => State(draw),
    }
}

/// Applies a click at `(x, y)` to every cell that lies there. In the mode
/// `Single` such a cell changes its state, in the mode `Random` a draw of
/// its own decides it, and in the mode `Block` nothing happens. The flag is
/// raised if a cell was placed, whether or not its state came out different.
pub fn handle_cell_click_system(
    cells: &mut Vec<CellBundle>,
    x: i32,
    y: i32,
    placement_mode: &PlacementMode,
    cells_changed: &mut CellsChanged,
)
    ensures
        final(cells)@.len() == old(cells)@.len(),
        forall|i: int|
            0 <= i < old(cells)@.len() ==> {
                let before = #[trigger] old(cells)@[i];
                let after = final(cells)@[i];
                &&& after.position == before.position
                &&& after.neighbors == before.neighbors
                &&& before.position != (Position { x, y }) ==> after.state == before.state
                &&& before.position == (Position { x, y }) ==> exists|draw: bool|
                    after.state == clicked_state(*placement_mode, before.state, draw)
            },
        final(cells_changed).0 == (old(cells_changed).0 || (*placement_mode != PlacementMode::Block
            && occupied(old(cells)@, Position { x, y }))),
{
    let ghost before = cells@;
    let ghost raised = cells_changed.0;
    let ghost target = Position { x, y };
    let mut i: usize = 0;
    while i < cells.len()
        invariant
            i <= cells@.len(),
            cells@.len() == before.len(),
            target == (Position { x, y }),
            forall|j: int| i <= j < cells@.len() ==> cells@[j] == before[j],
            forall|j: int|
                0 <= j < i ==> {
                    let was = #[trigger] before[j];
                    let now = cells@[j];
                    &&& now.position == was.position
                    &&& now.neighbors == was.neighbors
                    &&& was.position != target ==> now.state == was.state
                    &&& was.position == target ==> exists|draw: bool|
                        now.state == clicked_state(*placement_mode, was.state, draw)
                },
            cells_changed.0 == (raised || (*placement_mode != PlacementMode::Block && occupied(
                before.take(i as int),
                target,
            ))),
        decreases cells@.len() - i,
    {
        let cell = cells[i];
        let ghost shorter = before.take(i as int);
        let ghost longer = before.take(i + 1);
        if cell.position.x == x && cell.position.y == y {
            let state = match placement_mode {
                PlacementMode::Random => {
                    let mut rng = rand::thread_rng();
                    let draw = gen_ratio(
                        &mut rng,
                        ALIVE_CHANCE_NUMERATOR,
                        ALIVE_CHANCE_DENOMINATOR,
                    );
                    place(*placement_mode, cell.state, draw)
                },
                _ => place(*placement_mode, cell.state, false),
            };
            match placement_mode {
                PlacementMode::Block => {},
                _ => {
                    cells_changed.0 = true;
                },
            }
            cells.set(i, CellBundle { position: cell.position, state, neighbors: cell.neighbors });
            proof {
                assert(longer[i as int].position == target);
            }
        }
        proof {
            if occupied(shorter, target) {
                let j = choose|j: int|
                    0 <= j < shorter.len() && (#[trigger] shorter[j]).position == target;
                assert(longer[j].position == target);
            }
        }
        i += 1;
    }
    assert(before.take(before.len() as int) =~= before);
}

} // verus!
