//! The row-oriented buffer: insertion, deletion, selections and clamping.

use ginkgo::file::FileState;

fn chars(s: &str) -> Vec<char> {
    s.chars().collect()
}

fn text(s: &str) -> String {
    s.to_string()
}

fn row_string(fs: &FileState, idx: usize) -> String {
    fs.get_row_contents(idx).iter().collect()
}

fn buffer(rows: &[&str]) -> FileState {
    let mut fs = FileState::new();
    for r in rows {
        fs.append_row(chars(r));
    }
    fs
}

fn rows_of(fs: &FileState) -> Vec<String> {
    (0..fs.num_rows()).map(|i| row_string(fs, i)).collect()
}

#[test]
fn new_buffer_is_empty() {
    let fs = FileState::new();
    assert_eq!(fs.num_rows(), 0);
    assert_eq!(fs.filename().len(), 0);
}

#[test]
fn append_and_read_rows() {
    let fs = buffer(&["alpha", "beta"]);
    assert_eq!(fs.num_rows(), 2);
    assert_eq!(row_string(&fs, 0), text("alpha"));
    assert_eq!(row_string(&fs, 1), text("beta"));
    assert_eq!(fs.row_len(0), 5);
    assert_eq!(fs.row_len(7), 0);
}

#[test]
fn insert_row_shifts_later_rows() {
    let mut fs = buffer(&["a", "c"]);
    fs.insert_row(1, &chars("b"));
    assert_eq!(rows_of(&fs), vec![text("a"), text("b"), text("c")]);
}

#[test]
fn insert_row_past_end_is_noop() {
    let mut fs = buffer(&["a"]);
    fs.insert_row(5, &chars("x"));
    assert_eq!(rows_of(&fs), vec![text("a")]);
}

#[test]
fn insert_char_mid_row() {
    let mut fs = buffer(&["abc"]);
    let end = fs.insert_char('X', (1, 0));
    assert_eq!(end, (2, 0));
    assert_eq!(row_string(&fs, 0), text("aXbc"));
}

#[test]
fn insert_char_clamps_overshooting_column() {
    let mut fs = buffer(&["ab"]);
    fs.insert_char('Z', (10, 0));
    assert_eq!(row_string(&fs, 0), text("abZ"));
}

#[test]
fn insert_char_appends_row_at_buffer_end() {
    let mut fs = FileState::new();
    let end = fs.insert_char('h', (0, 0));
    assert_eq!(end, (1, 0));
    assert_eq!(rows_of(&fs), vec![text("h")]);
}

#[test]
fn insert_newline_splits_row() {
    let mut fs = buffer(&["hello"]);
    let end = fs.insert_newline((2, 0));
    assert_eq!(end, (0, 1));
    assert_eq!(rows_of(&fs), vec![text("he"), text("llo")]);
}

#[test]
fn insert_newline_at_row_start_inserts_empty_row_before() {
    let mut fs = buffer(&["hello"]);
    fs.insert_newline((0, 0));
    assert_eq!(rows_of(&fs), vec![text(""), text("hello")]);
}

#[test]
fn insert_newline_at_row_end_appends_empty_row_after() {
    let mut fs = buffer(&["hello"]);
    fs.insert_newline((5, 0));
    assert_eq!(rows_of(&fs), vec![text("hello"), text("")]);
}

#[test]
fn insert_string_single_line() {
    let mut fs = buffer(&["hell no"]);
    let end = fs.insert_string(&chars("o yes,"), (4, 0));
    assert_eq!(end, (10, 0));
    assert_eq!(rows_of(&fs), vec![text("hello yes, no")]);
}

#[test]
fn insert_string_multi_line() {
    let mut fs = buffer(&["headtail"]);
    let end = fs.insert_string(&chars("one\ntwo\nthree"), (4, 0));
    assert_eq!(rows_of(&fs), vec![text("headone"), text("two"), text("threetail")]);
    assert_eq!(end, (5, 2));
}

#[test]
fn insert_string_empty_is_identity() {
    let mut fs = buffer(&["same"]);
    let end = fs.insert_string(&chars(""), (2, 0));
    assert_eq!(end, (2, 0));
    assert_eq!(rows_of(&fs), vec![text("same")]);
}

#[test]
fn delete_row_and_delete_rows() {
    let mut fs = buffer(&["a", "b", "c", "d"]);
    fs.delete_row(1);
    assert_eq!(rows_of(&fs), vec![text("a"), text("c"), text("d")]);
    fs.delete_rows(0, 2);
    assert_eq!(rows_of(&fs), vec![text("d")]);
}

#[test]
fn delete_char_mid_row() {
    let mut fs = buffer(&["abc"]);
    let end = fs.delete_char((2, 0));
    assert_eq!(end, (1, 0));
    assert_eq!(rows_of(&fs), vec![text("ac")]);
}

#[test]
fn delete_char_at_row_start_joins_rows() {
    let mut fs = buffer(&["ab", "cd"]);
    let end = fs.delete_char((0, 1));
    assert_eq!(end, (2, 0));
    assert_eq!(rows_of(&fs), vec![text("abcd")]);
}

#[test]
fn delete_char_at_origin_is_noop() {
    let mut fs = buffer(&["ab"]);
    let end = fs.delete_char((0, 0));
    assert_eq!(end, (0, 0));
    assert_eq!(rows_of(&fs), vec![text("ab")]);
}

#[test]
fn delete_char_past_end_is_noop() {
    let mut fs = buffer(&["ab"]);
    let end = fs.delete_char((1, 1));
    assert_eq!(end, (1, 1));
    assert_eq!(rows_of(&fs), vec![text("ab")]);
}

#[test]
fn get_char_boundary_and_inner() {
    let fs = buffer(&["xy"]);
    assert_eq!(fs.get_char((0, 0)), '\n');
    assert_eq!(fs.get_char((1, 0)), 'x');
    assert_eq!(fs.get_char((2, 0)), 'y');
}

#[test]
fn selection_same_row() {
    let fs = buffer(&["abcdef"]);
    let sel: String = fs.get_selection((1, 0), (4, 0)).iter().collect();
    assert_eq!(sel, text("bcd"));
}

#[test]
fn selection_multi_row() {
    let fs = buffer(&["one", "two", "three"]);
    let sel: String = fs.get_selection((1, 0), (2, 2)).iter().collect();
    assert_eq!(sel, text("ne\ntwo\nth"));
}

#[test]
fn delete_selection_multi_row() {
    let mut fs = buffer(&["one", "two", "three"]);
    let end = fs.delete_selection((1, 0), (2, 2));
    assert_eq!(end, (1, 0));
    assert_eq!(rows_of(&fs), vec![text("oree")]);
}

#[test]
fn delete_then_reinsert_selection_restores_buffer() {
    // The selection round trip: capture, delete, splice back.
    let mut fs = buffer(&["one", "two", "three"]);
    let sel = fs.get_selection((1, 0), (2, 2));
    fs.delete_selection((1, 0), (2, 2));
    let end = fs.insert_string(&sel, (1, 0));
    assert_eq!(rows_of(&fs), vec![text("one"), text("two"), text("three")]);
    assert_eq!(end, (2, 2));
}

#[test]
fn clamp_to_bounds_clamps_row_then_column() {
    let fs = buffer(&["abc"]);
    assert_eq!(fs.clamp_to_bounds((10, 0)), (3, 0));
    assert_eq!(fs.clamp_to_bounds((10, 10)), (0, 1));
    assert_eq!(fs.clamp_to_bounds((2, 0)), (2, 0));
}

#[test]
fn clamp_within_bounds_stays_inside() {
    let fs = buffer(&["abc"]);
    assert_eq!(fs.clamp_within_bounds((10, 10)), (2, 0));
    assert_eq!(fs.clamp_within_bounds((1, 0)), (1, 0));
}

#[test]
fn clamp_within_bounds_handles_empty_buffer_and_rows() {
    let empty = FileState::new();
    assert_eq!(empty.clamp_within_bounds((5, 5)), (0, 0));
    let blank = buffer(&[""]);
    assert_eq!(blank.clamp_within_bounds((3, 0)), (0, 0));
}

#[test]
fn metadata_is_kept_by_edits() {
    let mut fs = FileState::new();
    fs.set_meta(chars("a.txt"), chars("/tmp/a.txt"), chars("txt"));
    fs.append_row(chars("x"));
    fs.insert_char('y', (1, 0));
    let name: String = fs.filename().iter().collect();
    let ext: String = fs.ext().iter().collect();
    assert_eq!(name, text("a.txt"));
    assert_eq!(ext, text("txt"));
}
