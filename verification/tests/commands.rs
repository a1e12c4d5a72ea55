//! The standalone command engine over a model: execution, grouping, undo
//! and redo, and the change counter.

use ginkgo::command::{Command, CommandState};
use ginkgo::model::Model;

fn chars(s: &str) -> Vec<char> {
    s.chars().collect()
}

fn model(rows: &[&str]) -> Model {
    let mut m = Model::new();
    for r in rows {
        m.buf.append_row(chars(r));
    }
    m
}

fn rows_of(m: &Model) -> Vec<String> {
    (0..m.num_rows()).map(|i| m.get_row_contents(i).iter().collect()).collect()
}

#[test]
fn execute_inserts_and_returns_the_inverse() {
    let mut m = model(&["abc"]);
    let cmd = Command::InsertChar { location: (1, 0), c: 'X' };
    let inv = cmd.execute(&mut m);
    assert_eq!(rows_of(&m), vec!["aXbc".to_string()]);
    assert_eq!((m.cx, m.cy), (2, 0));
    inv.execute(&mut m);
    assert_eq!(rows_of(&m), vec!["abc".to_string()]);
}

#[test]
fn delete_string_execute_moves_cursor_to_start() {
    let mut m = model(&["one", "two"]);
    let cmd = Command::DeleteString { start: (1, 0), end: (1, 1) };
    let inv = cmd.execute(&mut m);
    assert_eq!(rows_of(&m), vec!["owo".to_string()]);
    assert_eq!((m.cx, m.cy), (1, 0));
    inv.execute(&mut m);
    assert_eq!(rows_of(&m), vec!["one".to_string(), "two".to_string()]);
}

#[test]
fn engine_merges_typed_letters_into_one_step() {
    let mut m = model(&[""]);
    let mut cs = CommandState::new();
    for c in "cat".chars() {
        let loc = (m.cx, m.cy);
        cs.execute_command(Command::InsertChar { location: loc, c }, &mut m);
    }
    assert_eq!(rows_of(&m), vec!["cat".to_string()]);
    assert_eq!(cs.undo_steps.len(), 1);
    cs.execute_undo(&mut m);
    assert_eq!(rows_of(&m), vec!["".to_string()]);
    assert_eq!((m.cx, m.cy), (0, 0));
}

#[test]
fn engine_digit_starts_a_new_step() {
    let mut m = model(&[""]);
    let mut cs = CommandState::new();
    for c in "c1t".chars() {
        let loc = (m.cx, m.cy);
        cs.execute_command(Command::InsertChar { location: loc, c }, &mut m);
    }
    assert_eq!(cs.undo_steps.len(), 3);
    cs.execute_undo(&mut m);
    assert_eq!(rows_of(&m), vec!["c1".to_string()]);
}

#[test]
fn engine_undo_and_redo_round_trip() {
    let mut m = model(&["base"]);
    let mut cs = CommandState::new();
    cs.execute_command(Command::InsertNewline { location: (2, 0) }, &mut m);
    assert_eq!(rows_of(&m), vec!["ba".to_string(), "se".to_string()]);
    cs.execute_undo(&mut m);
    assert_eq!(rows_of(&m), vec!["base".to_string()]);
    cs.execute_redo(&mut m);
    assert_eq!(rows_of(&m), vec!["ba".to_string(), "se".to_string()]);
}

#[test]
fn engine_noops_on_empty_stacks() {
    let mut m = model(&["keep"]);
    let mut cs = CommandState::new();
    cs.execute_undo(&mut m);
    cs.execute_redo(&mut m);
    assert_eq!(rows_of(&m), vec!["keep".to_string()]);
    assert_eq!(cs.change_count, 0);
}

#[test]
fn command_group_undoes_as_one_step() {
    let mut m = model(&["aa"]);
    let mut cs = CommandState::new();
    let cmds = vec![
        Command::InsertChar { location: (0, 0), c: 'x' },
        Command::InsertChar { location: (1, 0), c: 'y' },
        Command::InsertNewline { location: (2, 0) },
    ];
    cs.execute_command_group(&cmds, &mut m);
    assert_eq!(rows_of(&m), vec!["xy".to_string(), "aa".to_string()]);
    assert_eq!(cs.undo_steps.len(), 1);
    assert_eq!(cs.undo_commands.len(), 3);
    cs.execute_undo(&mut m);
    assert_eq!(rows_of(&m), vec!["aa".to_string()]);
}

#[test]
fn change_count_normalizes_after_undos() {
    let mut m = model(&[""]);
    let mut cs = CommandState::new();
    cs.execute_command(Command::InsertChar { location: (0, 0), c: 'a' }, &mut m);
    cs.execute_command(Command::InsertChar { location: (1, 0), c: '!' }, &mut m);
    assert_eq!(cs.change_count, 2);
    cs.execute_undo(&mut m);
    cs.execute_undo(&mut m);
    cs.reset_change_count();
    cs.execute_undo(&mut m);
    assert_eq!(cs.change_count, 0);
    cs.execute_command(Command::InsertChar { location: (0, 0), c: 'q' }, &mut m);
    assert_eq!(cs.change_count, 1);
}

#[test]
fn delete_char_command_inverts_to_newline_at_row_start() {
    let mut m = model(&["ab", "cd"]);
    let cmd = Command::DeleteChar { location: (0, 1) };
    let inv = cmd.execute(&mut m);
    assert_eq!(rows_of(&m), vec!["abcd".to_string()]);
    assert!(matches!(inv, Command::InsertNewline { location: (2, 0) }));
    inv.execute(&mut m);
    assert_eq!(rows_of(&m), vec!["ab".to_string(), "cd".to_string()]);
}

#[test]
fn model_new_starts_clean_with_help_message() {
    let m = Model::new();
    assert_eq!(m.num_rows(), 0);
    assert_eq!((m.cx, m.cy), (0, 0));
    assert!(!m.dirty);
    assert_eq!(m.mode, 'N');
}

#[test]
fn model_set_cursor_clamps() {
    let mut m = model(&["abc"]);
    m.set_cursor(10, 0);
    assert_eq!((m.cx, m.cy), (3, 0));
    m.set_cursor(4, 9);
    assert_eq!((m.cx, m.cy), (0, 1));
}

#[test]
fn model_rename_file_splits_extension() {
    let mut m = model(&["x"]);
    m.rename_file(&chars("notes.md"));
    let name: String = m.buf.filename().iter().collect();
    let ext: String = m.buf.ext().iter().collect();
    assert_eq!(name, "notes.md".to_string());
    assert_eq!(ext, "md".to_string());
    m.rename_file(&chars("plain"));
    let ext2: String = m.buf.ext().iter().collect();
    assert_eq!(ext2, "".to_string());
}

#[test]
fn model_save_content_joins_rows_with_trailing_newline() {
    let m = model(&["one", "two"]);
    let saved: String = m.save_content().iter().collect();
    assert_eq!(saved, "one\ntwo\n".to_string());
    let empty = Model::new();
    assert_eq!(empty.save_content().len(), 0);
}

#[test]
fn empty_command_group_is_an_empty_undo_step() {
    let mut m = model(&["keep"]);
    let mut cs = CommandState::new();
    let cmds: Vec<Command> = Vec::new();
    cs.execute_command_group(&cmds, &mut m);
    assert_eq!(cs.undo_steps.len(), 1);
    assert_eq!(cs.undo_commands.len(), 0);
    cs.execute_undo(&mut m);
    assert_eq!(rows_of(&m), vec!["keep".to_string()]);
    assert_eq!(cs.redo_steps.len(), 1);
}

#[test]
fn model_delete_char_moves_cursor_back() {
    let mut m = model(&["abc"]);
    m.set_cursor(2, 0);
    m.delete_char();
    assert_eq!(rows_of(&m), vec!["ac".to_string()]);
    assert_eq!((m.cx, m.cy), (1, 0));
}

#[test]
fn model_get_anchors_normalizes() {
    let mut m = model(&["abc", "def"]);
    m.anchor_start = (2, 1);
    m.anchor_end = (1, 0);
    let (low, high) = m.get_anchors();
    assert_eq!(low, (1, 0));
    assert_eq!(high, (2, 1));
}
