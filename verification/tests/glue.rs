//! The controller, the top-level editor, the status bar and the text
//! helpers.

use ginkgo::controller::{KeyAction, PromptType, TerminalController, TerminalMode, QUIT_TIMES,
    find_occurrences};
use ginkgo::display::Color;
use ginkgo::edit::EditMsg;
use ginkgo::editor::{EditMode, EditorMsg, TextEditor};
use ginkgo::file::FileState;
use ginkgo::model::Model;
use ginkgo::status::{StatusBarComponent, StatusMsg};
use ginkgo::text::{str_to_chars, usize_to_chars, split_chars};
use ginkgo::ui::{Event, EventResponse, KeyCode, KeyEvent, KeyModifiers, Rect};

fn chars(s: &str) -> Vec<char> {
    s.chars().collect()
}

fn model(rows: &[&str]) -> Model {
    let mut m = Model::new();
    for r in rows {
        m.buf.append_row(chars(r));
    }
    m
}

fn rows_of(m: &Model) -> Vec<String> {
    (0..m.num_rows()).map(|i| m.get_row_contents(i).iter().collect()).collect()
}

fn plain(code: KeyCode) -> KeyEvent {
    KeyEvent { code, modifiers: KeyModifiers::Plain }
}

fn ctrl(c: char) -> KeyEvent {
    KeyEvent { code: KeyCode::Char(c), modifiers: KeyModifiers::Control }
}

#[test]
fn coordinates_compare_row_major() {
    assert!(ginkgo::coord::before((5, 0), (0, 1)));
    assert!(ginkgo::coord::after((0, 1), (5, 0)));
    assert!(ginkgo::coord::before((1, 2), (3, 2)));
    assert!(!ginkgo::coord::before((3, 2), (3, 2)));
    assert!(ginkgo::coord::between((2, 1), (0, 1), (0, 2)));
    assert!(!ginkgo::coord::between((0, 1), (0, 1), (0, 2)));
}

#[test]
fn rect_contains_point_is_half_open() {
    let r = Rect { x: 2, y: 1, width: 3, height: 2 };
    assert!(r.contains_point((2, 1)));
    assert!(r.contains_point((4, 2)));
    assert!(!r.contains_point((5, 1)));
    assert!(!r.contains_point((2, 3)));
    assert!(!r.contains_point((1, 1)));
}

#[test]
fn status_bar_default_message() {
    let bar = StatusBarComponent::new();
    let mut d = ginkgo::display::Display::new(12, 1);
    bar.draw(&Rect { x: 0, y: 0, width: 12, height: 1 }, &mut d);
    let line: String = d.grid[0].iter().map(|c| c.ch).collect();
    assert_eq!(line, "[Normal]    ".to_string());
}

#[test]
fn usize_to_chars_writes_decimal() {
    let z: String = usize_to_chars(0).iter().collect();
    assert_eq!(z, "0".to_string());
    let n: String = usize_to_chars(10234).iter().collect();
    assert_eq!(n, "10234".to_string());
}

#[test]
fn str_to_chars_round_trips() {
    let v = str_to_chars("hello world");
    let s: String = v.iter().collect();
    assert_eq!(s, "hello world".to_string());
}

#[test]
fn split_chars_splits_on_newlines() {
    let pieces = split_chars(&chars("a\n\nbc"));
    let texts: Vec<String> = pieces.iter().map(|p| p.iter().collect()).collect();
    assert_eq!(texts, vec!["a".to_string(), "".to_string(), "bc".to_string()]);
    let single = split_chars(&chars("abc"));
    assert_eq!(single.len(), 1);
}

#[test]
fn find_occurrences_reports_every_match_in_order() {
    let m = model(&["abcabc", "xabx"]);
    let occ = find_occurrences(&m, &chars("ab"));
    assert_eq!(occ, vec![(0, 0), (3, 0), (1, 1)]);
}

#[test]
fn find_occurrences_matches_do_not_overlap() {
    let m = model(&["aaaa"]);
    let occ = find_occurrences(&m, &chars("aa"));
    assert_eq!(occ, vec![(0, 0), (2, 0)]);
}

#[test]
fn controller_typing_and_undo() {
    let mut c = TerminalController::new(model(&[""]));
    c.process_key_normal(plain(KeyCode::Char('i')));
    assert!(matches!(c.mode, TerminalMode::Insert));
    for ch in "cat".chars() {
        c.process_key_insert(plain(KeyCode::Char(ch)));
    }
    assert_eq!(rows_of(&c.model), vec!["cat".to_string()]);
    c.process_key_insert(plain(KeyCode::Esc));
    assert!(matches!(c.mode, TerminalMode::Normal));
    c.process_key_normal(plain(KeyCode::Char('u')));
    assert_eq!(rows_of(&c.model), vec!["".to_string()]);
}

#[test]
fn controller_dirty_follows_the_change_count() {
    let mut c = TerminalController::new(model(&[""]));
    c.sync_dirty();
    assert!(!c.model.dirty);
    c.process_key_normal(plain(KeyCode::Char('i')));
    c.process_key_insert(plain(KeyCode::Char('z')));
    c.sync_dirty();
    assert!(c.model.dirty);
    c.mark_saved();
    c.sync_dirty();
    assert!(!c.model.dirty);
}

#[test]
fn controller_quit_counts_down_when_dirty() {
    let mut c = TerminalController::new(model(&["x"]));
    c.model.dirty = true;
    assert_eq!(c.quit_times, QUIT_TIMES);
    let r1 = c.process_key_normal(ctrl('q'));
    assert!(matches!(r1, KeyAction::Continue));
    assert_eq!(c.quit_times, QUIT_TIMES - 1);
    let r2 = c.process_key_normal(ctrl('q'));
    assert!(matches!(r2, KeyAction::Continue));
    let r3 = c.process_key_normal(ctrl('q'));
    assert!(matches!(r3, KeyAction::Exit));
}

#[test]
fn controller_quit_leaves_at_once_when_clean() {
    let mut c = TerminalController::new(model(&["x"]));
    let r = c.process_key_normal(ctrl('q'));
    assert!(matches!(r, KeyAction::Exit));
}

#[test]
fn controller_other_key_aborts_a_quit_run() {
    let mut c = TerminalController::new(model(&["x"]));
    c.model.dirty = true;
    c.process_key_normal(ctrl('q'));
    assert_eq!(c.quit_times, QUIT_TIMES - 1);
    c.process_key_normal(plain(KeyCode::Char('j')));
    assert_eq!(c.quit_times, QUIT_TIMES);
    assert!(matches!(&c.model.status_msg, ginkgo::model::StatusMsg::Normal(m) if m.is_empty()));
}

#[test]
fn controller_save_key_requests_a_save() {
    let mut c = TerminalController::new(model(&["x"]));
    let r = c.process_key_normal(ctrl('s'));
    assert!(matches!(r, KeyAction::Save));
    c.model.dirty = true;
    c.mark_saved();
    assert!(!c.model.dirty);
    assert_eq!(c.states.change_count, 0);
}

#[test]
fn find_navigation_cycles_through_occurrences() {
    assert_eq!(ginkgo::controller::find_next(0, 3), 1);
    assert_eq!(ginkgo::controller::find_next(2, 3), 0);
    assert_eq!(ginkgo::controller::find_prev(0, 3), 2);
    assert_eq!(ginkgo::controller::find_prev(2, 3), 1);
}

#[test]
fn controller_find_prompt_and_apply() {
    let mut c = TerminalController::new(model(&["say abc", "abc again"]));
    let r = c.process_key_normal(ctrl('f'));
    assert!(matches!(r, KeyAction::FindPrompt));
    assert!(matches!(c.mode, TerminalMode::Prompt(PromptType::Find)));
    let occ = find_occurrences(&c.model, &chars("abc"));
    assert_eq!(occ, vec![(4, 0), (0, 1)]);
    c.find_apply(&occ, 1, 3);
    assert!(c.model.text_selected);
    assert_eq!(c.model.anchor_start, (0, 1));
    assert_eq!(c.model.anchor_end, (3, 1));
    assert_eq!((c.model.cx, c.model.cy), (0, 1));
}

#[test]
fn controller_plain_h_moves_left_in_normal_mode() {
    let mut c = TerminalController::new(model(&["abc"]));
    c.model.cx = 2;
    c.process_key_normal(plain(KeyCode::Char('h')));
    assert_eq!((c.model.cx, c.model.cy), (1, 0));
    c.process_key_normal(plain(KeyCode::Char('h')));
    c.process_key_normal(plain(KeyCode::Char('h')));
    assert_eq!((c.model.cx, c.model.cy), (0, 0));
}

#[test]
fn model_rename_file_replaces_the_path_segment() {
    let mut m = model(&["x"]);
    m.buf.set_meta(chars("a.txt"), chars("dir/sub/a.txt"), chars("txt"));
    m.rename_file(&chars("b.rs"));
    let path: String = m.buf.path().iter().collect();
    assert_eq!(path, "dir/sub/b.rs".to_string());
    m.buf.set_meta(chars("a"), chars("bare"), chars(""));
    m.rename_file(&chars("c"));
    let path2: String = m.buf.path().iter().collect();
    assert_eq!(path2, "c".to_string());
}

#[test]
fn controller_open_line_below_with_o() {
    let mut c = TerminalController::new(model(&["abc"]));
    c.process_key_normal(plain(KeyCode::Char('o')));
    assert!(matches!(c.mode, TerminalMode::Insert));
    assert_eq!(rows_of(&c.model), vec!["abc".to_string(), "".to_string()]);
    assert_eq!((c.model.cx, c.model.cy), (0, 1));
}

#[test]
fn controller_scroll_follows_the_cursor() {
    let mut c = TerminalController::new(model(&["a", "b", "c", "d", "e", "f"]));
    c.model.cy = 5;
    c.scroll(3);
    assert_eq!(c.model.rowoff, 3);
    c.model.cy = 1;
    c.scroll(3);
    assert_eq!(c.model.rowoff, 1);
}

#[test]
fn controller_mouse_press_and_hold_select() {
    let mut c = TerminalController::new(model(&["abcdef"]));
    c.mouse_press(1, 0);
    assert_eq!((c.model.cx, c.model.cy), (1, 0));
    assert!(!c.model.text_selected);
    c.mouse_hold(4, 0);
    assert!(c.model.text_selected);
    assert_eq!(c.model.anchor_start, (1, 0));
    assert_eq!(c.model.anchor_end, (4, 0));
}

#[test]
fn status_bar_shows_and_pads_messages() {
    let mut bar = StatusBarComponent::new();
    let resp = bar.send_msg(StatusMsg::Warn(chars("careful")));
    assert!(matches!(resp, EventResponse::RedrawDisplay));
    let mut d = ginkgo::display::Display::new(10, 1);
    bar.draw(&Rect { x: 0, y: 0, width: 10, height: 1 }, &mut d);
    let line: String = d.grid[0].iter().map(|c| c.ch).collect();
    assert_eq!(line, "careful   ".to_string());
    assert_eq!(d.grid[0][0].fg, Color::Yellow);
}

#[test]
fn editor_end_to_end_typing_and_undo() {
    // The full scenario through the top-level editor: open an empty buffer,
    // enter insert mode, type, leave insert mode, and undo four times.
    let mut ed = TextEditor::new(80, 24);
    ed.open_file(FileState::new());
    ed.resize(&Rect { x: 0, y: 0, width: 80, height: 24 });
    ed.handle_event(Event::Key(plain(KeyCode::Char('i'))));
    assert_eq!(ed.mode, EditMode::Insert);
    for ch in "hi".chars() {
        ed.handle_event(Event::Key(plain(KeyCode::Char(ch))));
    }
    ed.handle_event(Event::Key(plain(KeyCode::Enter)));
    for ch in " there".chars() {
        ed.handle_event(Event::Key(plain(KeyCode::Char(ch))));
    }
    let pane = &ed.file_viewer.file_views[0];
    let rows: Vec<String> = (0..pane.filestate.num_rows())
        .map(|i| pane.filestate.get_row_contents(i).iter().collect())
        .collect();
    assert_eq!(rows, vec!["hi".to_string(), " there".to_string()]);
    assert_eq!(pane.cursor, (6, 1));

    ed.handle_event(Event::Key(plain(KeyCode::Esc)));
    assert_eq!(ed.mode, EditMode::Normal);
    for _ in 0..4 {
        ed.handle_event(Event::Key(plain(KeyCode::Char('u'))));
    }
    let pane = &ed.file_viewer.file_views[0];
    let rows: Vec<String> = (0..pane.filestate.num_rows())
        .map(|i| pane.filestate.get_row_contents(i).iter().collect())
        .collect();
    assert_eq!(rows, vec!["".to_string()]);
    assert_eq!(pane.cursor, (0, 0));
}

#[test]
fn editor_quit_chord_and_resize() {
    let mut ed = TextEditor::new(40, 10);
    ed.open_file(FileState::new());
    let resp = ed.handle_event(Event::Key(ctrl('q')));
    assert!(matches!(resp, EventResponse::Quit));
    let resp2 = ed.handle_event(Event::Resize(60, 20));
    assert!(matches!(resp2, EventResponse::RedrawDisplay));
    assert_eq!(ed.display.width, 60);
    assert_eq!(ed.display.height, 20);
    assert_eq!(ed.status_bar_bounds.y, 19);
    assert_eq!(ed.file_viewer_bounds.height, 19);
}

#[test]
fn editor_routes_messages_by_tag() {
    let mut ed = TextEditor::new(40, 10);
    ed.open_file(FileState::new());
    ed.handle_event(Event::Key(plain(KeyCode::Char('i'))));
    ed.handle_event(Event::Key(plain(KeyCode::Char('z'))));
    ed.send_msg(EditorMsg::Edit(EditMsg::Undo));
    let pane = &ed.file_viewer.file_views[0];
    assert_eq!(pane.filestate.row_len(0), 0);
    ed.send_msg(EditorMsg::Status(StatusMsg::Normal(chars("saved"))));
    assert!(matches!(&ed.status_bar.status_msg, StatusMsg::Normal(m) if m.len() == 5));
}

#[test]
fn editor_redo_key_in_normal_mode() {
    let mut ed = TextEditor::new(40, 10);
    ed.open_file(FileState::new());
    ed.handle_event(Event::Key(plain(KeyCode::Char('i'))));
    ed.handle_event(Event::Key(plain(KeyCode::Char('q'))));
    ed.handle_event(Event::Key(plain(KeyCode::Esc)));
    ed.handle_event(Event::Key(plain(KeyCode::Char('u'))));
    let resp = ed.handle_event(Event::Key(ctrl('r')));
    assert!(matches!(resp, EventResponse::RedrawDisplay));
    let pane = &ed.file_viewer.file_views[0];
    let row: String = pane.filestate.get_row_contents(0).iter().collect();
    assert_eq!(row, "q".to_string());
}
