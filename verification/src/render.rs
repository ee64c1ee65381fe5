//! A generation as text: one line for each row of the grid, one character
//! for each cell.

use vstd::prelude::*;
use crate::cell::Cell;
use crate::neighbourhood::{
    cell_index, fills_grid, lemma_cell_index_bounds, lemma_cell_index_position,
};
use crate::universe::get_cell_by_position;

verus! {

/// The character shown for a live cell on the screen: a filled square.
pub const ALIVE_GLYPH: char = '\u{25A0}';

/// The character shown for a dead cell on the screen: an empty square.
pub const DEAD_GLYPH: char = '\u{25A1}';

/// The character written for a live cell in a dump.
pub const ALIVE_DIGIT: char = '1';

/// The character written for a dead cell in a dump.
pub const DEAD_DIGIT: char = '0';

/// The character that stands for a cell.
pub open spec fn glyph_of(cell: Cell, alive: char, dead: char) -> char {
    if cell.alive() {
        alive
    } else {
        dead
    }
}

/// The text of a generation: the rows of the grid from the first to the
/// last, each as one character for every cell and a line feed behind them.
pub open spec fn rendered(
    cells: Seq<Cell>,
    width: int,
    height: int,
    alive: char,
    dead: char,
) -> Seq<char> {
    Seq::new(
        ((width + 1) * height) as nat,
        |k: int|
            if k % (width + 1) == width {
                '\n'
            } else {
                glyph_of(cells[cell_index(width, k % (width + 1), k / (width + 1))], alive, dead)
            },
    )
}

/// Writes a generation as text, with the given characters for live and
/// dead cells.
pub fn render_cells(cells: &Vec<Cell>, width: u32, height: u32, alive: char, dead: char) -> (text:
    Vec<char>)
    requires
        fills_grid(cells@, width as int, height as int),
    ensures
        text@ == rendered(cells@, width as int, height as int, alive, dead),
{
    let ghost target = rendered(cells@, width as int, height as int, alive, dead);
    let ghost line = width + 1;
    let mut text: Vec<char> = Vec::new();
    let mut y: u32 = 0;
    while y < height
        invariant
            y <= height,
            line == width + 1,
            fills_grid(cells@, width as int, height as int),
            target == rendered(cells@, width as int, height as int, alive, dead),
            text@.len() == line * y,
            forall|k: int| 0 <= k < text@.len() ==> text@[k] == target[k],
        decreases height - y,
    {
        let mut x: u32 = 0;
        while x < width
            invariant
                y < height,
                x <= width,
                line == width + 1,
                fills_grid(cells@, width as int, height as int),
                target == rendered(cells@, width as int, height as int, alive, dead),
                text@.len() == line * y + x,
                forall|k: int| 0 <= k < text@.len() ==> text@[k] == target[k],
            decreases width - x,
        {
            proof {
                lemma_cell_index_bounds(width as int, height as int, x as int, y as int);
                lemma_cell_index_bounds(line, height as int, x as int, y as int);
                lemma_cell_index_position(line, height as int, x as int, y as int);
                assert(line * y == y * line) by (nonlinear_arith);
            }
            let glyph = match get_cell_by_position(cells, width, x, y) {
                Cell::Alive => alive,
                Cell::Dead => dead,
            };
            text.push(glyph);
            x += 1;
        }
        proof {
            lemma_cell_index_bounds(line, height as int, width as int, y as int);
            lemma_cell_index_position(line, height as int, width as int, y as int);
            assert(line * y == y * line) by (nonlinear_arith);
            assert(line * (y + 1) == line * y + line) by (nonlinear_arith);
        }
        text.push('\n');
        y += 1;
    }
    text
}

} // verus!
