use game_of_life::cell::Cell;
use game_of_life::render::{render_cells, ALIVE_DIGIT, ALIVE_GLYPH, DEAD_DIGIT, DEAD_GLYPH};
use game_of_life::universe::Universe;

fn text(chars: Vec<char>) -> String {
    chars.into_iter().collect()
}

#[test]
fn a_dump_is_one_line_of_digits_for_each_row() {
    let mut universe = Universe::create(3, 2).unwrap();
    universe.set(0, 0, Cell::Alive).unwrap();
    universe.set(2, 1, Cell::Alive).unwrap();
    let dump = render_cells(&universe.cells, 3, 2, ALIVE_DIGIT, DEAD_DIGIT);
    assert_eq!(text(dump), "100\n001\n");
}

#[test]
fn the_screen_shows_squares() {
    let mut universe = Universe::create(2, 2).unwrap();
    universe.set(1, 0, Cell::Alive).unwrap();
    universe.set(0, 1, Cell::Alive).unwrap();
    let screen = render_cells(&universe.cells, 2, 2, ALIVE_GLYPH, DEAD_GLYPH);
    assert_eq!(text(screen), "\u{25A1}\u{25A0}\n\u{25A0}\u{25A1}\n");
}

#[test]
fn a_blinker_as_text() {
    let mut universe = Universe::create(5, 5).unwrap();
    for y in 1..4 {
        universe.set(2, y, Cell::Alive).unwrap();
    }
    let dump = render_cells(&universe.cells, 5, 5, '1', '0');
    assert_eq!(text(dump), "00000\n00100\n00100\n00100\n00000\n");
}

#[test]
fn a_grid_without_rows_has_no_text() {
    assert!(render_cells(&Vec::new(), 4, 0, '1', '0').is_empty());
}

#[test]
fn a_grid_without_columns_has_empty_lines() {
    assert_eq!(text(render_cells(&Vec::new(), 0, 3, '1', '0')), "\n\n\n");
}
