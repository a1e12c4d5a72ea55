//! The pane renderer: wrapped slices, the border column, placeholder rows,
//! selection highlighting and the status line.

use ginkgo::display::{Cell, Color, Display};
use ginkgo::edit::{FileEditComponent, BORDER};
use ginkgo::file::FileState;
use ginkgo::ui::Rect;

fn chars(s: &str) -> Vec<char> {
    s.chars().collect()
}

fn buffer(rows: &[&str]) -> FileState {
    let mut fs = FileState::new();
    for r in rows {
        fs.append_row(chars(r));
    }
    fs
}

fn row_text(block: &Vec<Vec<Cell>>, v: usize) -> String {
    block[v].iter().flat_map(|c| c.text.iter().cloned()).collect()
}

#[test]
fn content_rows_end_with_the_border_glyph() {
    let c = FileEditComponent::new(buffer(&["abc"]));
    let bounds = Rect { x: 0, y: 0, width: 6, height: 3 };
    let mut block = Cell::empty_cellblock(3);
    c.draw_file_content(&bounds, &mut block);
    assert_eq!(row_text(&block, 0), format!("abc  {}", BORDER));
    assert_eq!(row_text(&block, 1), format!("~    {}", BORDER));
    assert_eq!(block[2].len(), 0);
}

#[test]
fn long_rows_wrap_at_the_border() {
    let c = FileEditComponent::new(buffer(&["abcdef"]));
    let bounds = Rect { x: 0, y: 0, width: 4, height: 4 };
    let mut block = Cell::empty_cellblock(4);
    c.draw_file_content(&bounds, &mut block);
    assert_eq!(row_text(&block, 0), format!("abc{}", BORDER));
    assert_eq!(row_text(&block, 1), format!("def{}", BORDER));
    assert_eq!(row_text(&block, 2), format!("~  {}", BORDER));
}

#[test]
fn scrolled_panes_start_at_the_row_offset() {
    let mut c = FileEditComponent::new(buffer(&["one", "two", "three"]));
    c.rowoff = 1;
    let bounds = Rect { x: 0, y: 0, width: 7, height: 3 };
    let mut block = Cell::empty_cellblock(3);
    c.draw_file_content(&bounds, &mut block);
    assert_eq!(row_text(&block, 0), format!("two   {}", BORDER));
    assert_eq!(row_text(&block, 1), format!("three {}", BORDER));
}

#[test]
fn selection_paints_an_inverted_background() {
    let mut c = FileEditComponent::new(buffer(&["abcdef"]));
    c.anchor_start = (1, 0);
    c.anchor_end = (4, 0);
    c.text_selected = true;
    let bounds = Rect { x: 0, y: 0, width: 8, height: 2 };
    let mut block = Cell::empty_cellblock(2);
    c.draw_file_content(&bounds, &mut block);
    assert_eq!(row_text(&block, 0), format!("abcdef {}", BORDER));
    // Three runs before the padding: head, selected middle, tail.
    let head: String = block[0][0].text.iter().collect();
    let mid: String = block[0][1].text.iter().collect();
    let tail: String = block[0][2].text.iter().collect();
    assert_eq!(head, "a".to_string());
    assert_eq!(mid, "bcd".to_string());
    assert_eq!(tail, "ef".to_string());
    assert_eq!(block[0][1].bg_color, Color::Cyan);
    assert_eq!(block[0][1].text_color, Color::Black);
    assert_eq!(block[0][0].bg_color, Color::Black);
}

#[test]
fn status_line_shows_name_line_count_and_kind() {
    let c = FileEditComponent::new(buffer(&["x"]));
    let bounds = Rect { x: 0, y: 0, width: 40, height: 2 };
    let mut block = Cell::empty_cellblock(2);
    c.draw_file_info(&bounds, &mut block);
    let info: String = block[1][0].text.iter().collect();
    assert_eq!(info.len(), 40);
    assert!(info.starts_with(" [No name] - 1 lines "));
    assert!(info.ends_with("Plaintext "));
    assert_eq!(block[1][0].bg_color, Color::Grey);
}

#[test]
fn status_line_marks_unsaved_changes() {
    let mut c = FileEditComponent::new(buffer(&["x"]));
    c.filestate.set_meta(chars("a.rs"), chars("a.rs"), chars("rs"));
    c.change_count = 1;
    let bounds = Rect { x: 0, y: 0, width: 40, height: 1 };
    let mut block = Cell::empty_cellblock(1);
    c.draw_file_info(&bounds, &mut block);
    let info: String = block[0][0].text.iter().collect();
    assert!(info.starts_with(" a.rs - 1 lines (modified)"));
    assert!(info.ends_with("rs "));
}

#[test]
fn pane_draw_fills_the_display_rectangle() {
    let c = FileEditComponent::new(buffer(&["hi"]));
    let mut d = Display::new(10, 4);
    let bounds = Rect { x: 2, y: 1, width: 6, height: 3 };
    c.draw(&bounds, &mut d);
    let line1: String = d.grid[1].iter().map(|s| s.ch).collect();
    assert_eq!(line1, format!("  hi   {}  ", BORDER));
    assert_eq!(d.min_row, 1);
    assert_eq!(d.max_row, 4);
}

#[test]
fn screen_to_text_walks_wrapped_rows() {
    let mut c = FileEditComponent::new(buffer(&["abcdef", "gh"]));
    c.set_wrap_width(4);
    // Row zero wraps onto two screen lines of three columns each.
    assert_eq!(c.screen_to_text_coords(1, 0), (1, 0));
    assert_eq!(c.screen_to_text_coords(1, 1), (4, 0));
    assert_eq!(c.screen_to_text_coords(1, 2), (1, 1));
    // Positions beyond the text clamp to the buffer.
    assert_eq!(c.screen_to_text_coords(9, 2), (2, 1));
    assert_eq!(c.screen_to_text_coords(0, 9), (0, 2));
}

#[test]
fn row_height_counts_wrapped_lines() {
    let mut c = FileEditComponent::new(buffer(&["abcdef", "gh", ""]));
    c.set_wrap_width(4);
    assert_eq!(c.row_height(0), 2);
    assert_eq!(c.row_height(1), 1);
    assert_eq!(c.row_height(2), 1);
    assert_eq!(c.row_height(9), 1);
}
