//! Dealing the rows of a grid out to workers.
//!
//! The rows of a generation depend on the previous generation alone, so
//! each worker can compute its share from the same snapshot without a lock,
//! and the shares put end to end are the next generation.

use vstd::prelude::*;
use vstd::arithmetic::div_mod::{lemma_div_by_multiple, lemma_div_is_ordered};
use crate::cell::Cell;
use crate::generation::next_generation;

verus! {

/// The row at which the share of the given worker begins, where `height`
/// rows are dealt out to `workers` workers as evenly as can be. The share of
/// a worker ends where that of the next begins.
pub open spec fn share_start(height: int, workers: int, worker: int) -> int {
    (height * worker) / workers
}

/// The shares lie one behind the other and cover the rows: the first begins
/// at row zero, none begins after the next, and the one past the last
/// begins at the height.
pub proof fn lemma_shares_cover_the_rows(height: int, workers: int, worker: int)
    requires
        0 <= height,
        0 <= worker < workers,
    ensures
        share_start(height, workers, 0) == 0,
        share_start(height, workers, workers) == height,
        0 <= share_start(height, workers, worker) <= share_start(height, workers, worker + 1)
            <= height,
{
    lemma_div_by_multiple(height, workers);
    assert(0 <= height * worker <= height * (worker + 1) <= height * workers)
        by (nonlinear_arith)
        requires
            0 <= height,
            0 <= worker < workers,
    ;
    lemma_div_is_ordered(0, height * worker, workers);
    lemma_div_is_ordered(height * worker, height * (worker + 1), workers);
    lemma_div_is_ordered(height * (worker + 1), height * workers, workers);
}

/// The rows that one of `workers` workers computes: the first of them, and
/// the row behind the last.
pub fn worker_rows(height: u32, workers: u32, worker: u32) -> (rows: (u32, u32))
    requires
        worker < workers,
    ensures
        rows.0 == share_start(height as int, workers as int, worker as int),
        rows.1 == share_start(height as int, workers as int, worker + 1),
        rows.0 <= rows.1 <= height,
{
    proof {
        lemma_shares_cover_the_rows(height as int, workers as int, worker as int);
        assert(height * worker <= 0xFFFF_FFFF * 0xFFFF_FFFF && height * (worker + 1) <= 0xFFFF_FFFF
            * 0xFFFF_FFFF) by (nonlinear_arith)
            requires
                0 <= height <= 0xFFFF_FFFF,
                0 <= worker < 0xFFFF_FFFF,
        ;
    }
    let first = (height as u64 * worker as u64) / workers as u64;
    let end = (height as u64 * (worker as u64 + 1)) / workers as u64;
    (first as u32, end as u32)
}

/// Two shares of the next generation that lie one behind the other make,
/// put end to end, the rows from the first of the one to the last of the
/// other.
pub proof fn lemma_shares_join(
    cells: Seq<Cell>,
    width: int,
    height: int,
    first_row: int,
    middle_row: int,
    end_row: int,
)
    requires
        cells.len() == width * height,
        0 <= width,
        0 <= first_row <= middle_row <= end_row <= height,
    ensures
        next_generation(cells, width, height).subrange(first_row * width, middle_row * width)
            + next_generation(cells, width, height).subrange(middle_row * width, end_row * width)
            == next_generation(cells, width, height).subrange(first_row * width, end_row * width),
{
    assert(0 <= first_row * width <= middle_row * width <= end_row * width <= width * height)
        by (nonlinear_arith)
        requires
            0 <= width,
            0 <= first_row <= middle_row <= end_row <= height,
    ;
    let next = next_generation(cells, width, height);
    assert(next.subrange(first_row * width, middle_row * width) + next.subrange(
        middle_row * width,
        end_row * width,
    ) =~= next.subrange(first_row * width, end_row * width));
}

} // verus!
