//! The simulation driver: repeated generation advances, the policy by which
//! a run halts early, and the report of what a run did.
//!
//! A run stops only between generations. Whether anything changed is handed
//! back in the report, not kept in a shared flag.

use vstd::prelude::*;
use crate::cell::Cell;
use crate::generation::{
    changed_within, extinct, generation_after, lemma_extinct_stays_extinct,
    lemma_generation_after_add, lemma_generation_after_len, step_changes,
};
use crate::error::GridError;
use crate::neighbourhood::fills_grid;
use crate::universe::{run_iteration, Universe};

verus! {

/// The number of generations that a grid has been advanced by.
#[derive(Debug, Clone, Copy, PartialEq, Eq, Structural)]
pub struct Generations(pub u32);

/// Whether some cell has changed since the flag was last cleared.
#[derive(Debug, Clone, Copy, PartialEq, Eq, Structural)]
pub struct CellsChanged(pub bool);

/// When a run stops before it has made all the advances asked for.
#[derive(Debug, Clone, Copy, PartialEq, Eq, Structural)]
pub struct HaltPolicy {
    /// No advance is made once the generation counter has reached this.
    pub max_generations: u32,
    /// No advance is made while no live cell remains.
    pub stop_when_extinct: bool,
}

/// What a run did.
#[derive(Debug, Clone, Copy, PartialEq, Eq, Structural)]
pub struct RunReport {
    /// The number of advances made.
    pub generations: u32,
    /// Whether the run stopped before it had made all the advances asked for.
    pub terminated_early: bool,
    /// Whether some advance changed a cell.
    pub changed: bool,
}

impl HaltPolicy {
    /// Whether the policy forbids an advance from the generation `cells`
    /// when the counter stands at `generation`.
    pub open spec fn halts(&self, cells: Seq<Cell>, generation: int) -> bool {
        generation >= self.max_generations || (self.stop_when_extinct && extinct(cells))
    }

    /// The policy that stops no run, as a value of the model.
    pub open spec fn unlimited() -> HaltPolicy {
        HaltPolicy { max_generations: u32::MAX, stop_when_extinct: false }
    }

    /// The policy that stops no run: the counter of a fresh run cannot reach
    /// its limit, and an empty grid is advanced like any other.
    pub fn never() -> (policy: HaltPolicy)
        ensures
            policy == HaltPolicy::unlimited(),
    {
        HaltPolicy { max_generations: u32::MAX, stop_when_extinct: false }
    }

    /// Decides whether the next advance is forbidden.
    pub fn should_halt(&self, cells: &Vec<Cell>, generations: &Generations) -> (halt: bool)
        ensures
            halt == self.halts(cells@, generations.0 as int),
    {
        generations.0 >= self.max_generations || (self.stop_when_extinct && is_extinct(cells))
    }
}

/// Tells whether no cell of the generation is alive.
pub fn is_extinct(cells: &Vec<Cell>) -> (none_alive: bool)
    ensures
        none_alive == extinct(cells@),
{
    let mut i: usize = 0;
    while i < cells.len()
        invariant
            i <= cells@.len(),
            forall|j: int| 0 <= j < i ==> !(#[trigger] cells@[j]).alive(),
        decreases cells@.len() - i,
    {
        if cells[i].is_alive() {
            return false;
        }
        i += 1;
    }
    true
}

/// What a run under a halt policy leaves behind. From the generation
/// `before`, with the counter at `start`, it makes `report.generations`
/// advances: as many as were asked for, or fewer where the policy forbade
/// the next one, and it forbade none of those made.
pub open spec fn run_outcome(
    before: Seq<Cell>,
    width: int,
    height: int,
    start: int,
    policy: HaltPolicy,
    iterations: nat,
    after: Seq<Cell>,
    report: RunReport,
) -> bool {
    let made = report.generations as nat;
    &&& made <= iterations
    &&& after == generation_after(before, width, height, made)
    &&& forall|k: nat|
        k < made ==> !policy.halts(#[trigger] generation_after(before, width, height, k), start + k)
    &&& made < iterations ==> policy.halts(after, start + made)
    &&& report.terminated_early == (made < iterations)
    &&& report.changed == changed_within(before, width, height, made)
}

/// Advances the universe by up to `iterations` generations. Before each
/// advance the policy is asked, with the current generation and the counter;
/// where it halts, the run ends there. The counter grows by the number of
/// advances made.
pub fn run_until(
    iterations: u32,
    universe: &mut Universe,
    generations: &mut Generations,
    policy: &HaltPolicy,
) -> (report: RunReport)
    requires
        old(universe).wf(),
    ensures
        final(universe).wf(),
        final(universe).width == old(universe).width,
        final(universe).height == old(universe).height,
        final(generations).0 == old(generations).0 + report.generations,
        report.generations == 0 ==> final(universe).cells@ == old(universe).cells@,
        run_outcome(
            old(universe).cells@,
            old(universe).width as int,
            old(universe).height as int,
            old(generations).0 as int,
            *policy,
            iterations as nat,
            final(universe).cells@,
            report,
        ),
{
    let ghost before = universe.cells@;
    let ghost width = universe.width as int;
    let ghost height = universe.height as int;
    let ghost start = generations.0 as int;
    let mut made: u32 = 0;
    let mut changed = false;
    let mut halted = false;
    while made < iterations && !halted
        invariant
            made <= iterations,
            universe.wf(),
            universe.width == width,
            universe.height == height,
            generations.0 == start + made,
            universe.cells@ == generation_after(before, width, height, made as nat),
            forall|k: nat|
                k < made ==> !policy.halts(
                    #[trigger] generation_after(before, width, height, k),
                    start + k,
                ),
            halted ==> made < iterations && policy.halts(universe.cells@, start + made),
            changed == changed_within(before, width, height, made as nat),
        decreases iterations - made + if halted { 0int } else { 1int },
    {
        if policy.should_halt(&universe.cells, generations) {
            halted = true;
        } else {
            let step_changed = run_iteration(universe);
            proof {
                lemma_changed_within_step(before, width, height, made as nat);
            }
            changed = changed || step_changed;
            made += 1;
            generations.0 += 1;
        }
    }
    RunReport { generations: made, terminated_early: made < iterations, changed }
}

/// Some step among the first `n + 1` changes a cell exactly if one among
/// the first `n` does, or the last one does.
proof fn lemma_changed_within_step(cells: Seq<Cell>, width: int, height: int, n: nat)
    ensures
        changed_within(cells, width, height, n + 1) == (changed_within(cells, width, height, n)
            || step_changes(cells, width, height, n)),
{
}

/// A run is decided by where it starts: two runs from the same generation,
/// on the same grid, with the same counter, policy and number of iterations,
/// end in the same generation with the same report.
pub proof fn lemma_run_is_deterministic(
    before: Seq<Cell>,
    width: int,
    height: int,
    start: int,
    policy: HaltPolicy,
    iterations: nat,
    first_after: Seq<Cell>,
    first_report: RunReport,
    second_after: Seq<Cell>,
    second_report: RunReport,
)
    requires
        run_outcome(before, width, height, start, policy, iterations, first_after, first_report),
        run_outcome(before, width, height, start, policy, iterations, second_after, second_report),
    ensures
        first_after == second_after,
        first_report == second_report,
{
}

/// Halting on an empty grid is not seen in the result: where the counter
/// cannot reach its limit, a run that stops when no live cell remains ends
/// in the generation that the full number of advances would have reached.
pub proof fn lemma_halt_when_extinct_keeps_result(
    before: Seq<Cell>,
    width: int,
    height: int,
    start: int,
    policy: HaltPolicy,
    iterations: nat,
    after: Seq<Cell>,
    report: RunReport,
)
    requires
        before.len() == width * height,
        start + iterations <= policy.max_generations,
        run_outcome(before, width, height, start, policy, iterations, after, report),
    ensures
        after == generation_after(before, width, height, iterations),
{
    let made = report.generations as nat;
    if made < iterations {
        lemma_generation_after_len(before, width, height, made);
        lemma_extinct_stays_extinct(after, width, height, (iterations - made) as nat);
        lemma_generation_after_add(before, width, height, made, (iterations - made) as nat);
    }
}

/// Advances the universe by exactly `iterations` generations, one after
/// the other. Zero iterations leave it as it is.
pub fn run(iterations: u32, universe: &mut Universe) -> (report: RunReport)
    requires
        old(universe).wf(),
    ensures
        final(universe).wf(),
        final(universe).width == old(universe).width,
        final(universe).height == old(universe).height,
        final(universe).cells@ == generation_after(
            old(universe).cells@,
            old(universe).width as int,
            old(universe).height as int,
            iterations as nat,
        ),
        iterations == 0 ==> final(universe).cells@ == old(universe).cells@,
        report.generations == iterations,
        !report.terminated_early,
        report.changed == changed_within(
            old(universe).cells@,
            old(universe).width as int,
            old(universe).height as int,
            iterations as nat,
        ),
        run_outcome(
            old(universe).cells@,
            old(universe).width as int,
            old(universe).height as int,
            0,
            HaltPolicy::unlimited(),
            iterations as nat,
            final(universe).cells@,
            report,
        ),
{
    let mut generations = Generations(0);
    let policy = HaltPolicy::never();
    run_until(iterations, universe, &mut generations, &policy)
}

/// Whether the generation is what `iterations` steps make of some seed
/// that fills the grid.
pub open spec fn grown_from_a_seed(cells: Seq<Cell>, width: int, height: int, iterations: nat)
    -> bool {
    exists|seed: Seq<Cell>|
        fills_grid(seed, width, height) && cells == #[trigger] generation_after(
            seed,
            width,
            height,
            iterations,
        )
}

/// Makes a `width` by `height` universe, seeds it by chance and advances
/// it by `iterations` generations. A width or a height of zero is refused
/// before any work is done. The extent of the result is the one asked for,
/// and its cells are what the advances make of the seed, which chance
/// decides.
pub fn run_simulation(width: u32, height: u32, iterations: u32) -> (made: Result<
    Universe,
    GridError,
>)
    requires
        width * height <= usize::MAX,
    ensures
        match made {
            Ok(universe) => {
                &&& width > 0 && height > 0
                &&& universe.wf()
                &&& universe.width == width
                &&& universe.height == height
                &&& grown_from_a_seed(
                    universe.cells@,
                    width as int,
                    height as int,
                    iterations as nat,
                )
            },
            Err(error) => (width == 0 || height == 0) && error == GridError::ConfigurationError,
        },
{
    let mut universe = match Universe::create(width, height) {
        Ok(universe) => universe,
        Err(error) => {
            return Err(error);
        },
    };
    universe.randomize();
    let ghost seed = universe.cells@;
    run(iterations, &mut universe);
    assert(fills_grid(seed, width as int, height as int) && universe.cells@ == generation_after(
        seed,
        width as int,
        height as int,
        iterations as nat,
    ));
    Ok(universe)
}

} // verus!
