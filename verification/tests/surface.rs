//! The rendering surface: dirty-range tracking, clipping and flushing.

use ginkgo::display::{Cell, Color, Display};
use ginkgo::ui::Rect;

fn chars(s: &str) -> Vec<char> {
    s.chars().collect()
}

fn run(s: &str) -> Vec<Cell> {
    vec![Cell::new(chars(s), Color::White, Color::Black)]
}

fn block(rows: &[&str]) -> Vec<Vec<Cell>> {
    rows.iter().map(|r| run(r)).collect()
}

fn grid_row(d: &Display, y: usize) -> String {
    d.grid[y].iter().map(|c| c.ch).collect()
}

#[test]
fn new_display_is_blank_and_clean() {
    let d = Display::new(4, 3);
    assert_eq!(d.width, 4);
    assert_eq!(d.height, 3);
    assert!(d.min_row == usize::MAX && d.max_row == 0);
    assert_eq!(grid_row(&d, 0), "    ".to_string());
}

#[test]
fn draw_writes_cells_at_the_rectangle_offset() {
    let mut d = Display::new(6, 4);
    let r = Rect { x: 2, y: 1, width: 3, height: 2 };
    d.draw(&r, &block(&["ab", "cd"]));
    assert_eq!(grid_row(&d, 1), "  ab  ".to_string());
    assert_eq!(grid_row(&d, 2), "  cd  ".to_string());
    assert_eq!(grid_row(&d, 0), "      ".to_string());
}

#[test]
fn draw_clips_at_the_grid_edge() {
    let mut d = Display::new(4, 2);
    let r = Rect { x: 2, y: 0, width: 5, height: 1 };
    d.draw(&r, &block(&["wxyz"]));
    assert_eq!(grid_row(&d, 0), "  wx".to_string());
    let r2 = Rect { x: 0, y: 1, width: 4, height: 3 };
    d.draw(&r2, &block(&["aa", "bb", "cc"]));
    assert_eq!(grid_row(&d, 1), "aa  ".to_string());
}

#[test]
fn disjoint_draws_dirty_exactly_their_union() {
    // Rectangles touching rows two to five and ten to twelve leave the
    // dirty range exactly two to twelve, and a flush empties it.
    let mut d = Display::new(20, 15);
    d.draw(&Rect { x: 0, y: 2, width: 5, height: 3 }, &block(&["a", "b", "c"]));
    assert_eq!(d.min_row, 2);
    assert_eq!(d.max_row, 5);
    d.draw(&Rect { x: 9, y: 10, width: 5, height: 2 }, &block(&["d", "e"]));
    assert_eq!(d.min_row, 2);
    assert_eq!(d.max_row, 12);
    let (start, rows) = d.flush();
    assert_eq!(start, 2);
    assert_eq!(rows.len(), 10);
    assert!(d.min_row == usize::MAX && d.max_row == 0);
}

#[test]
fn flush_with_nothing_dirty_yields_no_rows() {
    let mut d = Display::new(8, 4);
    let (start, rows) = d.flush();
    assert_eq!(start, 0);
    assert_eq!(rows.len(), 0);
}

#[test]
fn flush_hands_back_the_dirty_rows() {
    let mut d = Display::new(3, 3);
    d.draw(&Rect { x: 0, y: 1, width: 3, height: 1 }, &block(&["abc"]));
    let (start, rows) = d.flush();
    assert_eq!(start, 1);
    assert_eq!(rows.len(), 1);
    let text: String = rows[0].iter().map(|c| c.ch).collect();
    assert_eq!(text, "abc".to_string());
}

#[test]
fn dirty_range_clamps_to_grid_height() {
    let mut d = Display::new(4, 3);
    d.draw(&Rect { x: 0, y: 1, width: 4, height: 9 }, &block(&["a", "b", "c", "d", "e"]));
    assert_eq!(d.min_row, 1);
    assert_eq!(d.max_row, 3);
}

#[test]
fn draw_below_the_grid_changes_nothing() {
    let mut d = Display::new(4, 2);
    d.draw(&Rect { x: 0, y: 7, width: 4, height: 1 }, &block(&["zz"]));
    assert!(d.min_row == usize::MAX && d.max_row == 0);
    assert_eq!(grid_row(&d, 0), "    ".to_string());
}

#[test]
fn draw_keeps_cells_outside_its_rectangle() {
    let mut d = Display::new(6, 1);
    d.draw(&Rect { x: 0, y: 0, width: 6, height: 1 }, &block(&["mmmmmm"]));
    d.draw(&Rect { x: 2, y: 0, width: 2, height: 1 }, &block(&["xy"]));
    assert_eq!(grid_row(&d, 0), "mmxymm".to_string());
}

#[test]
fn runs_carry_their_colors() {
    let mut d = Display::new(4, 1);
    let row = vec![
        Cell::new(chars("ab"), Color::Black, Color::Cyan),
        Cell::new(chars("cd"), Color::White, Color::Black),
    ];
    d.draw(&Rect { x: 0, y: 0, width: 4, height: 1 }, &vec![row]);
    assert_eq!(d.grid[0][0].bg, Color::Cyan);
    assert_eq!(d.grid[0][1].bg, Color::Cyan);
    assert_eq!(d.grid[0][2].bg, Color::Black);
    assert_eq!(d.grid[0][0].ch, 'a');
    assert_eq!(d.grid[0][3].ch, 'd');
}

#[test]
fn resize_resets_content_and_dirty_range() {
    let mut d = Display::new(3, 2);
    d.draw(&Rect { x: 0, y: 0, width: 3, height: 1 }, &block(&["abc"]));
    d.resize(5, 4);
    assert_eq!(d.width, 5);
    assert_eq!(d.height, 4);
    assert!(d.min_row == usize::MAX && d.max_row == 0);
    assert_eq!(grid_row(&d, 0), "     ".to_string());
}

#[test]
fn empty_cellblock_and_filled_have_the_right_shape() {
    let b = Cell::empty_cellblock(3);
    assert_eq!(b.len(), 3);
    assert_eq!(b[0].len(), 0);
    let f = Cell::filled(&chars("*"), Color::White, Color::Black, 2, 2);
    assert_eq!(f.len(), 2);
    assert_eq!(f[0].len(), 2);
    let t: String = f[1][1].text.iter().collect();
    assert_eq!(t, "*".to_string());
}
