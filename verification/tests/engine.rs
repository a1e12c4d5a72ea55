//! The undo/redo engine: inverse exactness, run-length merging, grouped
//! undo, and the end-to-end typing scenario.

use ginkgo::edit::{EditCommand, FileEditComponent, EditMsg};
use ginkgo::file::FileState;
use ginkgo::ui::{Event, EventResponse, KeyCode, KeyEvent, KeyModifiers, MouseEvent,
    MouseEventKind};

fn chars(s: &str) -> Vec<char> {
    s.chars().collect()
}

fn buffer(rows: &[&str]) -> FileState {
    let mut fs = FileState::new();
    for r in rows {
        fs.append_row(chars(r));
    }
    fs
}

fn rows_of(c: &FileEditComponent) -> Vec<String> {
    (0..c.filestate.num_rows()).map(|i| c.filestate.get_row_contents(i).iter().collect()).collect()
}

fn key(code: KeyCode) -> Event {
    Event::Key(KeyEvent { code, modifiers: KeyModifiers::Plain })
}

fn type_str(c: &mut FileEditComponent, s: &str) {
    for ch in s.chars() {
        if ch == '\n' {
            c.handle_event(key(KeyCode::Enter));
        } else {
            c.handle_event(key(KeyCode::Char(ch)));
        }
    }
}

#[test]
fn insert_char_inverse_restores_buffer() {
    // Buffer ["abc"], inserting 'X' at (1,0) gives ["aXbc"] and the inverse
    // deletes at (2,0), restoring ["abc"].
    let mut c = FileEditComponent::new(buffer(&["abc"]));
    let inv = c.execute_edit_command(&EditCommand::InsertChar { location: (1, 0), c: 'X' });
    assert_eq!(rows_of(&c), vec!["aXbc".to_string()]);
    match &inv {
        EditCommand::DeleteChar { location } => assert_eq!(*location, (2, 0)),
        _ => panic!("the inverse of an insert must be a delete"),
    }
    c.execute_edit_command(&inv);
    assert_eq!(rows_of(&c), vec!["abc".to_string()]);
}

#[test]
fn insert_newline_inverse_restores_buffer() {
    let mut c = FileEditComponent::new(buffer(&["hello"]));
    let inv = c.execute_edit_command(&EditCommand::InsertNewline { location: (2, 0) });
    assert_eq!(rows_of(&c), vec!["he".to_string(), "llo".to_string()]);
    c.execute_edit_command(&inv);
    assert_eq!(rows_of(&c), vec!["hello".to_string()]);
}

#[test]
fn insert_string_inverse_restores_buffer() {
    let mut c = FileEditComponent::new(buffer(&["headtail"]));
    let inv = c.execute_edit_command(
        &EditCommand::InsertString { location: (4, 0), contents: chars("one\ntwo") },
    );
    assert_eq!(rows_of(&c), vec!["headone".to_string(), "twotail".to_string()]);
    match &inv {
        EditCommand::DeleteString { start, end } => {
            assert_eq!(*start, (4, 0));
            assert_eq!(*end, (3, 1));
        },
        _ => panic!("the inverse of a splice must be a range delete"),
    }
    c.execute_edit_command(&inv);
    assert_eq!(rows_of(&c), vec!["headtail".to_string()]);
}

#[test]
fn delete_string_inverse_restores_buffer() {
    let mut c = FileEditComponent::new(buffer(&["one", "two", "three"]));
    let inv = c.execute_edit_command(
        &EditCommand::DeleteString { start: (1, 0), end: (2, 2) },
    );
    assert_eq!(rows_of(&c), vec!["oree".to_string()]);
    match &inv {
        EditCommand::InsertString { location, contents } => {
            assert_eq!(*location, (1, 0));
            let captured: String = contents.iter().collect();
            assert_eq!(captured, "ne\ntwo\nth".to_string());
        },
        _ => panic!("the inverse of a range delete must be a splice"),
    }
    c.execute_edit_command(&inv);
    assert_eq!(rows_of(&c), vec!["one".to_string(), "two".to_string(), "three".to_string()]);
}

#[test]
fn delete_char_inverse_restores_joined_rows() {
    let mut c = FileEditComponent::new(buffer(&["ab", "cd"]));
    let inv = c.execute_edit_command(&EditCommand::DeleteChar { location: (0, 1) });
    assert_eq!(rows_of(&c), vec!["abcd".to_string()]);
    match &inv {
        EditCommand::InsertNewline { location } => assert_eq!(*location, (2, 0)),
        _ => panic!("deleting a row boundary must invert to a newline"),
    }
    c.execute_edit_command(&inv);
    assert_eq!(rows_of(&c), vec!["ab".to_string(), "cd".to_string()]);
}

#[test]
fn typing_cat_merges_into_one_undo_step() {
    // A contiguous run of typed letters undoes as one step.
    let mut c = FileEditComponent::new(buffer(&[""]));
    type_str(&mut c, "cat");
    assert_eq!(rows_of(&c), vec!["cat".to_string()]);
    assert_eq!(c.undo_steps.len(), 1);
    c.execute_undo();
    assert_eq!(rows_of(&c), vec!["".to_string()]);
}

#[test]
fn digit_breaks_the_merge_run() {
    // A digit breaks the run: one undo removes only the trailing letter.
    let mut c = FileEditComponent::new(buffer(&[""]));
    type_str(&mut c, "c1t");
    assert_eq!(rows_of(&c), vec!["c1t".to_string()]);
    assert_eq!(c.undo_steps.len(), 3);
    c.execute_undo();
    assert_eq!(rows_of(&c), vec!["c1".to_string()]);
}

#[test]
fn end_to_end_typing_and_undo() {
    // Open an empty buffer, type "hi\n there", then undo four times: the
    // buffer ends as one empty row with the cursor at the origin.
    let mut c = FileEditComponent::new(FileState::new());
    type_str(&mut c, "hi\n there");
    assert_eq!(rows_of(&c), vec!["hi".to_string(), " there".to_string()]);
    assert_eq!(c.cursor, (6, 1));
    c.execute_undo();
    c.execute_undo();
    c.execute_undo();
    c.execute_undo();
    assert_eq!(rows_of(&c), vec!["".to_string()]);
    assert_eq!(c.cursor, (0, 0));
}

#[test]
fn undo_then_redo_round_trip() {
    let mut c = FileEditComponent::new(buffer(&["base"]));
    type_str(&mut c, "xy");
    assert_eq!(rows_of(&c), vec!["xybase".to_string()]);
    c.execute_undo();
    assert_eq!(rows_of(&c), vec!["base".to_string()]);
    c.execute_redo();
    assert_eq!(rows_of(&c), vec!["xybase".to_string()]);
}

#[test]
fn undo_on_empty_history_is_noop() {
    let mut c = FileEditComponent::new(buffer(&["keep"]));
    c.execute_undo();
    c.execute_redo();
    assert_eq!(rows_of(&c), vec!["keep".to_string()]);
}

#[test]
fn fresh_edit_clears_redo_history() {
    let mut c = FileEditComponent::new(buffer(&[""]));
    type_str(&mut c, "a");
    c.execute_undo();
    assert_eq!(c.redo_steps.len(), 1);
    type_str(&mut c, "b");
    assert_eq!(c.redo_steps.len(), 0);
    c.execute_redo();
    assert_eq!(rows_of(&c), vec!["b".to_string()]);
}

#[test]
fn change_count_tracks_edits_and_undos() {
    let mut c = FileEditComponent::new(buffer(&[""]));
    assert_eq!(c.change_count, 0);
    type_str(&mut c, "ab");
    assert_eq!(c.change_count, 2);
    c.execute_undo();
    assert_eq!(c.change_count, 1);
    c.reset_change_count();
    assert_eq!(c.change_count, 0);
}

#[test]
fn selection_anchors_normalize_in_either_order() {
    let mut c = FileEditComponent::new(buffer(&["abc", "def"]));
    c.anchor_start = (2, 1);
    c.anchor_end = (1, 0);
    let (low, high) = c.get_anchors();
    assert_eq!(low, (1, 0));
    assert_eq!(high, (2, 1));
    c.anchor_start = (1, 0);
    c.anchor_end = (2, 1);
    let (low2, high2) = c.get_anchors();
    assert_eq!(low2, (1, 0));
    assert_eq!(high2, (2, 1));
}

#[test]
fn deleting_a_selection_is_one_undo_step() {
    let mut c = FileEditComponent::new(buffer(&["abcdef"]));
    c.anchor_start = (4, 0);
    c.anchor_end = (1, 0);
    c.text_selected = true;
    c.delete();
    assert_eq!(rows_of(&c), vec!["aef".to_string()]);
    assert!(!c.text_selected);
    c.execute_undo();
    assert_eq!(rows_of(&c), vec!["abcdef".to_string()]);
}

#[test]
fn typing_over_a_selection_replaces_it() {
    let mut c = FileEditComponent::new(buffer(&["abcdef"]));
    c.anchor_start = (1, 0);
    c.anchor_end = (4, 0);
    c.text_selected = true;
    c.handle_event(key(KeyCode::Char('X')));
    assert_eq!(rows_of(&c), vec!["aXef".to_string()]);
    assert_eq!(c.cursor, (2, 0));
}

#[test]
fn cursor_motion_clamps_and_wraps() {
    let mut c = FileEditComponent::new(buffer(&["abc", "x"]));
    c.handle_event(key(KeyCode::Right));
    c.handle_event(key(KeyCode::Right));
    c.handle_event(key(KeyCode::Right));
    assert_eq!(c.cursor, (3, 0));
    c.handle_event(key(KeyCode::Right));
    assert_eq!(c.cursor, (0, 1));
    c.handle_event(key(KeyCode::Left));
    assert_eq!(c.cursor, (3, 0));
    c.handle_event(key(KeyCode::Down));
    assert_eq!(c.cursor, (1, 1));
    c.handle_event(key(KeyCode::Up));
    assert_eq!(c.cursor, (1, 0));
}

#[test]
fn backspace_joins_rows_at_row_start() {
    let mut c = FileEditComponent::new(buffer(&["ab", "cd"]));
    c.cursor = (0, 1);
    let resp = c.handle_event(key(KeyCode::Backspace));
    assert!(matches!(resp, EventResponse::RedrawDisplay));
    assert_eq!(rows_of(&c), vec!["abcd".to_string()]);
    assert_eq!(c.cursor, (2, 0));
}

#[test]
fn send_msg_undoes_and_redoes() {
    let mut c = FileEditComponent::new(buffer(&[""]));
    type_str(&mut c, "hi");
    c.send_msg(&EditMsg::Undo);
    assert_eq!(rows_of(&c), vec!["".to_string()]);
    c.send_msg(&EditMsg::Redo);
    assert_eq!(rows_of(&c), vec!["hi".to_string()]);
}

#[test]
fn mouse_down_and_drag_select_text() {
    let mut c = FileEditComponent::new(buffer(&["abcdef"]));
    c.set_wrap_width(10);
    c.handle_event(Event::Mouse(MouseEvent { kind: MouseEventKind::Down, column: 1, row: 0 }));
    assert_eq!(c.cursor, (1, 0));
    assert!(!c.text_selected);
    c.handle_event(Event::Mouse(MouseEvent { kind: MouseEventKind::Drag, column: 4, row: 0 }));
    assert!(c.text_selected);
    assert_eq!(c.anchor_start, (1, 0));
    assert_eq!(c.anchor_end, (4, 0));
    assert_eq!(c.cursor, (4, 0));
}

#[test]
fn wrapped_cursor_coords_accounts_for_soft_wrap() {
    let mut c = FileEditComponent::new(buffer(&["abcdef", "gh"]));
    c.cursor = (5, 0);
    // Width four wraps at three columns: column five is line one, column two.
    assert_eq!(c.wrapped_cursor_coords(4), (2, 1));
    c.cursor = (1, 1);
    // Row zero adds two extra wrapped lines (six columns over a three-column
    // wrap) on top of the logical row index.
    assert_eq!(c.wrapped_cursor_coords(4), (1, 3));
}
