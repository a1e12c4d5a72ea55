//! The input controller: turns keys and mouse events into model edits.
//!
//! The controller owns one model and its command engine, tracks the input
//! mode (normal, insert, or one of the prompts) and the quit countdown, and
//! decides for every key what the editor does. Reading the keys, the prompt
//! line and the terminal itself live outside; the controller only computes
//! the next state and tells its caller what else to do (save, quit, open a
//! prompt).

use vstd::prelude::*;

use crate::command::{Command, CommandState};
use crate::edit::{EditCommand, apply_cmd, cmd_cursor, cmd_valid, cursor_ok, inverse_ok,
    lemma_stack_push_empty, merge_result, norm_count, bump_count, row_len_at};
use crate::model::{Model, StatusMsg};
use crate::text::{str_to_chars, usize_to_chars, extend_chars};
use crate::ui::{KeyCode, KeyEvent, KeyModifiers};

verus! {

/// What the prompt line asks for.
pub enum PromptType {
    /// A search term.
    Find,
    /// A new file name.
    Rename,
    /// A command.
    Command,
}

/// The controller's input mode.
pub enum TerminalMode {
    /// Keys navigate and dispatch commands.
    Normal,
    /// Keys type into the buffer.
    Insert,
    /// Keys type into the prompt line.
    Prompt(PromptType),
}

/// What the caller must do after a key was processed.
pub enum KeyAction {
    /// Nothing beyond redrawing.
    Continue,
    /// Leave the editor.
    Exit,
    /// Write the buffer to disk, then report back through `mark_saved`.
    Save,
    /// Open the search prompt.
    FindPrompt,
    /// Open the rename prompt.
    RenamePrompt,
}

/// The number of times quit must be pressed to discard unsaved changes.
pub const QUIT_TIMES: u8 = 3;

/// One model together with its command engine, input mode and quit
/// countdown.
pub struct TerminalController {
    /// The buffer and cursor state being edited.
    pub model: Model,
    /// The undo/redo engine for the model.
    pub states: CommandState,
    /// How many more quit presses discard unsaved changes.
    pub quit_times: u8,
    /// The input mode.
    pub mode: TerminalMode,
}

/// The positions at which `term` occurs in `row` at or after `from`,
/// leftmost first, non-overlapping: after a match the search resumes past
/// it.
pub open spec fn matches_from(row: Seq<char>, term: Seq<char>, from: int) -> Seq<int>
    decreases row.len() - from,
{
    if term.len() == 0 || from < 0 || from + term.len() > row.len() {
        Seq::empty()
    } else if row.subrange(from, from + term.len()) == term {
        seq![from] + matches_from(row, term, from + term.len())
    } else {
        matches_from(row, term, from + 1)
    }
}

/// Every occurrence of `term` in the first `upto` rows, as `(column, row)`
/// pairs in row-major order.
pub open spec fn all_occurrences(rows: Seq<Seq<char>>, term: Seq<char>, upto: int) -> Seq<
    (int, int),
>
    decreases upto,
{
    if upto <= 0 {
        Seq::empty()
    } else {
        all_occurrences(rows, term, upto - 1) + matches_from(rows[upto - 1], term, 0).map_values(
            |c: int| (c, upto - 1),
        )
    }
}


/// Where an arrow key sends the cursor before the final column clamp: left
/// and right wrap over row ends, up and down stay in the column.
pub open spec fn arrow_target(rows: Seq<Seq<char>>, cx: int, cy: int, key: KeyCode) -> (int, int) {
    if key == KeyCode::Left {
        if cx != 0 {
            (cx - 1, cy)
        } else if cy > 0 {
            (row_len_at(rows, cy - 1), cy - 1)
        } else {
            (cx, cy)
        }
    } else if key == KeyCode::Right {
        let len = row_len_at(rows, cy);
        if cy < rows.len() && cx < len {
            (cx + 1, cy)
        } else if cy < rows.len() && cx == len {
            (0int, cy + 1)
        } else {
            (cx, cy)
        }
    } else if key == KeyCode::Up {
        (cx, if cy > 0 {
            cy - 1
        } else {
            0int
        })
    } else {
        (cx, if cy < rows.len() {
            cy + 1
        } else {
            cy
        })
    }
}

/// The column clamped to its row's length (zero past the last row).
pub open spec fn clamp_col(rows: Seq<Seq<char>>, cx: int, cy: int) -> int {
    let rowlen = if cy < rows.len() {
        row_len_at(rows, cy)
    } else {
        0int
    };
    if cx > rowlen {
        rowlen
    } else {
        cx
    }
}

/// What one cursor-motion key does to the controller; see `move_cursor`.
pub open spec fn ctrl_move_effect(
    pre: TerminalController,
    post: TerminalController,
    key: KeyCode,
) -> bool {
    let rows = pre.model@;
    let t = arrow_target(rows, pre.model.cx as int, pre.model.cy as int, key);
    &&& post.model@ == rows
    &&& post.model.buf == pre.model.buf
    &&& !post.model.text_selected
    &&& post.states == pre.states
    &&& if key == KeyCode::Left || key == KeyCode::Right || key == KeyCode::Up || key
        == KeyCode::Down {
        post.model.cy == t.1 && post.model.cx == clamp_col(rows, t.0, t.1)
    } else {
        post.model.cx == pre.model.cx && post.model.cy == pre.model.cy
    }
    &&& post.model.rowoff == pre.model.rowoff
    &&& post.model.coloff == pre.model.coloff
    &&& post.model.mode == pre.model.mode
    &&& post.model.dirty == pre.model.dirty
    &&& post.model.anchor_start == pre.model.anchor_start
    &&& post.model.anchor_end == pre.model.anchor_end
}

/// What a deletion key does to the controller: the selection, or the
/// character before the cursor, goes as one undoable edit; where nothing can
/// be deleted only the selection flag drops. See `delete`.
pub open spec fn ctrl_delete_effect(pre: TerminalController, post: TerminalController) -> bool {
    let rows = pre.model@;
    let s = pre.model.spec_anchors().0;
    let e = pre.model.spec_anchors().1;
    let ds = EditCommand::DeleteString { start: s, end: e };
    let dc = EditCommand::DeleteChar { location: (pre.model.cx, pre.model.cy) };
    let cmd = if pre.model.text_selected {
        ds
    } else {
        dc
    };
    &&& !post.model.text_selected
    &&& post.model.buf.spec_meta() == pre.model.buf.spec_meta()
    &&& post.model.rowoff == pre.model.rowoff
    &&& post.model.coloff == pre.model.coloff
    &&& post.model.mode == pre.model.mode
    &&& post.model.dirty == pre.model.dirty
    &&& if cmd_valid(rows, cmd) {
        &&& post.model@ == apply_cmd(rows, cmd)
        &&& (post.model.cx as int, post.model.cy as int) == cmd_cursor(rows, cmd)
        &&& post.states.redo_commands@.len() == 0
        &&& post.states.redo_steps@.len() == 0
        &&& post.states.undo_commands@.len() == pre.states.undo_commands@.len() + 1
        &&& post.states.undo_commands@.drop_last() == pre.states.undo_commands@
        &&& inverse_ok(rows, cmd, post.states.undo_commands@.last())
        &&& post.states.undo_steps@ == pre.states.undo_steps@.push(1)
        &&& post.states.change_count == bump_count(norm_count(pre.states.change_count as int))
        &&& (pre.model.text_selected ==> post.model.anchor_start == s && post.model.anchor_end
            == e)
        &&& (!pre.model.text_selected ==> post.model.anchor_start == pre.model.anchor_start
            && post.model.anchor_end == pre.model.anchor_end)
    } else {
        &&& post.model@ == rows
        &&& post.model.cx == pre.model.cx && post.model.cy == pre.model.cy
        &&& post.states == pre.states
        &&& post.model.anchor_start == pre.model.anchor_start
        &&& post.model.anchor_end == pre.model.anchor_end
    }
}

/// What typing one character does to the controller: the selection is
/// deleted first, a row is appended at the buffer end if the cursor sits
/// just past it, then the character goes in — merging letter runs into the
/// undo entry on top where the merge rule applies. See `insert_char`.
pub open spec fn ctrl_insert_char_effect(
    pre: TerminalController,
    post: TerminalController,
    c: char,
) -> bool {
    let rows = pre.model@;
    let s = pre.model.spec_anchors().0;
    let e = pre.model.spec_anchors().1;
    let ds = EditCommand::DeleteString { start: s, end: e };
    let sel = pre.model.text_selected && cmd_valid(rows, ds);
    let rows1 = if sel {
        apply_cmd(rows, ds)
    } else {
        rows
    };
    let cur1 = if sel {
        s
    } else {
        (pre.model.cx, pre.model.cy)
    };
    let rows2 = if cur1.1 == rows1.len() {
        rows1.push(Seq::empty())
    } else {
        rows1
    };
    let ic = EditCommand::InsertChar { location: cur1, c };
    &&& post.model@ == apply_cmd(rows2, ic)
    &&& post.model.cx == cur1.0 + 1
    &&& post.model.cy == cur1.1
    &&& !post.model.text_selected
    &&& post.model.buf.spec_meta() == pre.model.buf.spec_meta()
    &&& post.states.redo_commands@.len() == 0
    &&& post.states.redo_steps@.len() == 0
    &&& post.model.rowoff == pre.model.rowoff
    &&& post.model.coloff == pre.model.coloff
    &&& post.model.mode == pre.model.mode
    &&& post.model.dirty == pre.model.dirty
    &&& if sel {
        &&& post.states.undo_commands@.len() == pre.states.undo_commands@.len() + 2
        &&& post.states.undo_commands@.take(pre.states.undo_commands@.len() as int)
            == pre.states.undo_commands@
        &&& inverse_ok(rows, ds, post.states.undo_commands@[pre.states.undo_commands@.len() as int])
        &&& inverse_ok(rows2, ic, post.states.undo_commands@.last())
        &&& post.states.undo_steps@ == pre.states.undo_steps@.push(1).push(1)
        &&& post.states.change_count == bump_count(
            bump_count(norm_count(pre.states.change_count as int)),
        )
    } else {
        &&& post.states.change_count == bump_count(norm_count(pre.states.change_count as int))
        &&& match merge_result(apply_cmd(rows2, ic), pre.states.undo_commands@, ic) {
            Option::Some(merged) => {
                &&& post.states.undo_commands@ == merged
                &&& post.states.undo_steps@ == pre.states.undo_steps@
            },
            Option::None => {
                &&& post.states.undo_commands@.len() == pre.states.undo_commands@.len() + 1
                &&& post.states.undo_commands@.drop_last() == pre.states.undo_commands@
                &&& inverse_ok(rows2, ic, post.states.undo_commands@.last())
                &&& post.states.undo_steps@ == pre.states.undo_steps@.push(1)
            },
        }
    }
}

/// What the newline key does to the controller: the row splits at the
/// cursor as one fresh undo entry, with an empty row appended first at the
/// buffer end. See `insert_newline`.
pub open spec fn ctrl_insert_newline_effect(
    pre: TerminalController,
    post: TerminalController,
) -> bool {
    let rows = pre.model@;
    let rows1 = if pre.model.cy == rows.len() {
        rows.push(Seq::empty())
    } else {
        rows
    };
    let nl = EditCommand::InsertNewline { location: (pre.model.cx, pre.model.cy) };
    &&& post.model@ == apply_cmd(rows1, nl)
    &&& post.model.cx == 0
    &&& post.model.cy == pre.model.cy + 1
    &&& post.model.text_selected == pre.model.text_selected
    &&& post.model.buf.spec_meta() == pre.model.buf.spec_meta()
    &&& post.states.redo_commands@.len() == 0
    &&& post.states.redo_steps@.len() == 0
    &&& post.states.undo_commands@.len() == pre.states.undo_commands@.len() + 1
    &&& post.states.undo_commands@.drop_last() == pre.states.undo_commands@
    &&& inverse_ok(rows1, nl, post.states.undo_commands@.last())
    &&& post.states.undo_steps@ == pre.states.undo_steps@.push(1)
    &&& post.states.change_count == bump_count(norm_count(pre.states.change_count as int))
    &&& post.model.rowoff == pre.model.rowoff
    &&& post.model.coloff == pre.model.coloff
    &&& post.model.mode == pre.model.mode
    &&& post.model.dirty == pre.model.dirty
    &&& post.model.anchor_start == pre.model.anchor_start
    &&& post.model.anchor_end == pre.model.anchor_end
}

/// Returns whether `row` holds exactly `term` starting at `from`.
fn eq_range(row: &Vec<char>, from: usize, term: &Vec<char>) -> (r: bool)
    requires
        from + term@.len() <= row@.len(),
    ensures
        r == (row@.subrange(from as int, from + term@.len()) == term@),
{
    let n = term.len();
    let rl = row.len();
    let mut k: usize = 0;
    while k < n
        invariant
            k <= n,
            n == term@.len(),
            rl == row@.len(),
            from + n <= rl,
            forall|j: int| 0 <= j < k ==> row@[from + j] == term@[j],
        decreases n - k,
    {
        if row[from + k] != term[k] {
            proof {
                assert(row@.subrange(from as int, from + term@.len())[k as int] != term@[k as int]);
            }
            return false;
        }
        k = k + 1;
    }
    proof {
        assert(row@.subrange(from as int, from + term@.len()) =~= term@);
    }
    true
}

/// Every position at which `term` occurs in `row`, leftmost first,
/// non-overlapping.
pub fn find_matches(row: &Vec<char>, term: &Vec<char>) -> (r: Vec<usize>)
    requires
        term@.len() >= 1,
    ensures
        r@.map_values(|c: usize| c as int) == matches_from(row@, term@, 0),
{
    let mut out: Vec<usize> = Vec::new();
    let mut from: usize = 0;
    let n = row.len();
    let tlen = term.len();
    proof {
        assert(out@.map_values(|c: usize| c as int) + matches_from(row@, term@, 0)
            =~= matches_from(row@, term@, 0));
    }
    if tlen > n {
        proof {
            assert(matches_from(row@, term@, 0) =~= Seq::<int>::empty());
            assert(out@.map_values(|c: usize| c as int) =~= Seq::<int>::empty());
        }
        return out;
    }
    while from <= n - tlen
        invariant
            n == row@.len(),
            tlen == term@.len(),
            tlen >= 1,
            tlen <= n,
            matches_from(row@, term@, 0) == out@.map_values(|c: usize| c as int) + matches_from(
                row@,
                term@,
                from as int,
            ),
        decreases n - from,
    {
        if eq_range(row, from, term) {
            out.push(from);
            proof {
                assert(out@.map_values(|c: usize| c as int) =~= out@.drop_last().map_values(
                    |c: usize| c as int,
                ).push(from as int));
                assert(matches_from(row@, term@, from as int) == seq![from as int] + matches_from(
                    row@,
                    term@,
                    from + tlen,
                ));
                assert(matches_from(row@, term@, 0) =~= out@.map_values(|c: usize| c as int)
                    + matches_from(row@, term@, from + tlen));
            }
            from = from + tlen;
        } else {
            proof {
                assert(matches_from(row@, term@, from as int) == matches_from(
                    row@,
                    term@,
                    from + 1,
                ));
            }
            from = from + 1;
        }
    }
    proof {
        assert(matches_from(row@, term@, from as int) =~= Seq::<int>::empty());
        assert(out@.map_values(|c: usize| c as int) + Seq::<int>::empty() =~= out@.map_values(
            |c: usize| c as int,
        ));
    }
    out
}

/// Every occurrence of `term` in the buffer, as `(column, row)` pairs in
/// row-major order, matches within one row non-overlapping.
pub fn find_occurrences(model: &Model, term: &Vec<char>) -> (r: Vec<(usize, usize)>)
    requires
        term@.len() >= 1,
    ensures
        r@.map_values(|p: (usize, usize)| (p.0 as int, p.1 as int)) == all_occurrences(
            model@,
            term@,
            model@.len() as int,
        ),
{
    let mut out: Vec<(usize, usize)> = Vec::new();
    let num_rows = model.num_rows();
    let mut i: usize = 0;
    proof {
        assert(out@.map_values(|p: (usize, usize)| (p.0 as int, p.1 as int))
            =~= all_occurrences(model@, term@, 0));
    }
    while i < num_rows
        invariant
            i <= num_rows,
            num_rows == model@.len(),
            term@.len() >= 1,
            out@.map_values(|p: (usize, usize)| (p.0 as int, p.1 as int)) == all_occurrences(
                model@,
                term@,
                i as int,
            ),
        decreases num_rows - i,
    {
        let row = model.get_row_contents(i);
        let cols = find_matches(row, term);
        let m = cols.len();
        let mut k: usize = 0;
        while k < m
            invariant
                k <= m,
                m == cols@.len(),
                i < num_rows,
                num_rows == model@.len(),
                cols@.map_values(|c: usize| c as int) == matches_from(
                    model@[i as int],
                    term@,
                    0,
                ),
                out@.map_values(|p: (usize, usize)| (p.0 as int, p.1 as int)) == all_occurrences(
                    model@,
                    term@,
                    i as int,
                ) + matches_from(model@[i as int], term@, 0).map_values(|c: int| (c, i as int)).take(
                    k as int,
                ),
            decreases m - k,
        {
            let ghost pre_out = out@;
            out.push((cols[k], i));
            proof {
                let ms = matches_from(model@[i as int], term@, 0);
                let pair = |p: (usize, usize)| (p.0 as int, p.1 as int);
                assert(cols@.map_values(|c: usize| c as int)[k as int] == cols@[k as int] as int);
                assert(ms[k as int] == cols@[k as int] as int);
                assert(ms.map_values(|c: int| (c, i as int))[k as int] == (
                    cols@[k as int] as int,
                    i as int,
                ));
                assert(out@ == pre_out.push((cols@[k as int], i)));
                assert(out@.map_values(pair) =~= pre_out.map_values(pair).push((
                    cols@[k as int] as int,
                    i as int,
                )));
                assert(ms.map_values(|c: int| (c, i as int)).take(k + 1) =~= ms.map_values(
                    |c: int| (c, i as int),
                ).take(k as int).push((cols@[k as int] as int, i as int)));
                assert(out@.map_values(pair) =~= all_occurrences(model@, term@, i as int)
                    + ms.map_values(|c: int| (c, i as int)).take(k + 1));
                assert(out@.map_values(|p: (usize, usize)| (p.0 as int, p.1 as int))
                    == out@.map_values(pair));
            }
            k = k + 1;
        }
        proof {
            let full = matches_from(model@[i as int], term@, 0).map_values(|c: int| (c, i as int));
            assert(full.take(full.len() as int) =~= full);
            assert(all_occurrences(model@, term@, i + 1) == all_occurrences(model@, term@, i as int)
                + full);
        }
        i = i + 1;
    }
    out
}

/// The next search occurrence to show: one past `idx`, wrapping to the
/// first.
pub fn find_next(idx: usize, len: usize) -> (r: usize)
    requires
        1 <= len,
        idx < len,
    ensures
        r as int == (idx + 1) % (len as int),
        r < len,
{
    (idx + 1) % len
}

/// The previous search occurrence to show: one before `idx`, wrapping to the
/// last.
pub fn find_prev(idx: usize, len: usize) -> (r: usize)
    requires
        1 <= len,
        idx < len,
    ensures
        r == if idx == 0 {
            (len - 1) as int
        } else {
            (idx - 1) as int
        },
        r < len,
{
    if idx == 0 {
        len - 1
    } else {
        idx - 1
    }
}

impl TerminalController {
    /// The model and engine agree and the mode tag is consistent.
    pub open spec fn wf(&self) -> bool {
        &&& self.model.wf()
        &&& self.states.wf(self.model@)
    }

    /// A controller in normal mode over the given model, with fresh history
    /// and a full quit countdown.
    pub fn new(model: Model) -> (r: TerminalController)
        requires
            model.wf(),
        ensures
            r.wf(),
            r.model == model,
            r.quit_times == QUIT_TIMES,
            r.mode is Normal,
            r.states.change_count == 0,
            r.states.undo_steps@.len() == 0,
            r.states.redo_steps@.len() == 0,
    {
        TerminalController { model, states: CommandState::new(), quit_times: QUIT_TIMES, mode: TerminalMode::Normal }
    }

    /// Scrolls the viewport so the cursor stays visible in a window of the
    /// given number of rows (the same count bounds the columns).
    pub fn scroll(&mut self, screenrows: usize)
        requires
            screenrows >= 1,
        ensures
            final(self).model.cx == old(self).model.cx,
            final(self).model.cy == old(self).model.cy,
            final(self).model.buf == old(self).model.buf,
            final(self).states == old(self).states,
            final(self).mode == old(self).mode,
            final(self).model.rowoff == ({
                let cy = old(self).model.cy as int;
                let r0 = if cy < old(self).model.rowoff {
                    cy
                } else {
                    old(self).model.rowoff as int
                };
                if cy >= r0 + screenrows {
                    cy - screenrows + 1
                } else {
                    r0
                }
            }),
            final(self).model.coloff == ({
                let cx = old(self).model.cx as int;
                let c0 = if cx < old(self).model.coloff {
                    cx
                } else {
                    old(self).model.coloff as int
                };
                if cx >= c0 + screenrows {
                    cx - screenrows + 1
                } else {
                    c0
                }
            }),
            final(self).wf() == old(self).wf(),
    {
        // If the cursor went above the view, scroll up.
        if self.model.cy < self.model.rowoff {
            self.model.rowoff = self.model.cy;
        }
        // If the cursor is below the view, scroll down.
        if self.model.cy - self.model.rowoff >= screenrows {
            self.model.rowoff = self.model.cy - screenrows + 1;
        }
        // If the cursor is off-screen to the left, scroll left.
        if self.model.cx < self.model.coloff {
            self.model.coloff = self.model.cx;
        }
        // If the cursor is off-screen to the right, scroll right.
        if self.model.cx - self.model.coloff >= screenrows {
            self.model.coloff = self.model.cx - screenrows + 1;
        }
    }

    /// Moves the cursor one step in the direction of the arrow key, wrapping
    /// at row ends, clamping to the buffer, and dropping the selection.
    pub fn move_cursor(&mut self, key: KeyCode)
        requires
            old(self).wf(),
        ensures
            final(self).wf(),
            ctrl_move_effect(*old(self), *final(self), key),
            final(self).model.status_msg == old(self).model.status_msg,
            final(self).mode == old(self).mode,
            final(self).quit_times == old(self).quit_times,
    {
        self.model.text_selected = false;
        let num_rows = self.model.num_rows();
        match key {
            KeyCode::Left => {
                if self.model.cx != 0 {
                    self.model.cx = self.model.cx - 1;
                } else if self.model.cy > 0 {
                    self.model.cy = self.model.cy - 1;
                    self.model.cx = self.model.cur_row_len();
                }
            },
            KeyCode::Right => {
                let len = self.model.cur_row_len();
                if self.model.cy < num_rows && self.model.cx < len {
                    self.model.cx = self.model.cx + 1;
                } else if self.model.cy < num_rows && self.model.cx == len {
                    self.model.cy = self.model.cy + 1;
                    self.model.cx = 0;
                }
            },
            KeyCode::Up => {
                if self.model.cy > 0 {
                    self.model.cy = self.model.cy - 1;
                }
            },
            KeyCode::Down => {
                if self.model.cy < num_rows {
                    self.model.cy = self.model.cy + 1;
                }
            },
            _ => {
                return ;
            },
        }
        let mut rowlen: usize = 0;
        if self.model.cy < num_rows {
            rowlen = self.model.cur_row_len();
        }
        if self.model.cx > rowlen {
            self.model.cx = rowlen;
        }
        proof {
            assert(cursor_ok(self.model@, self.model.cx as int, self.model.cy as int));
        }
    }

    /// Moves the cursor to the end of its row.
    pub fn goto_line_end(&mut self)
        requires
            old(self).wf(),
        ensures
            final(self).wf(),
            final(self).model@ == old(self).model@,
            final(self).model.cx == row_len_at(old(self).model@, old(self).model.cy as int),
            final(self).model.cy == old(self).model.cy,
            final(self).states == old(self).states,
            final(self).mode == old(self).mode,
    {
        let len = self.model.cur_row_len();
        self.model.cx = len;
    }

    /// Moves the cursor to the start of its row.
    pub fn goto_line_start(&mut self)
        requires
            old(self).wf(),
        ensures
            final(self).wf(),
            final(self).model@ == old(self).model@,
            final(self).model.cx == 0,
            final(self).model.cy == old(self).model.cy,
            final(self).states == old(self).states,
            final(self).mode == old(self).mode,
    {
        self.model.cx = 0;
    }

    /// Deletes the active selection, or the character before the cursor, as
    /// one undoable edit; positions where nothing can be deleted are no-ops.
    /// A selection whose anchors no longer denote a range is dropped.
    pub fn delete(&mut self)
        requires
            old(self).wf(),
        ensures
            final(self).wf(),
            ctrl_delete_effect(*old(self), *final(self)),
            final(self).model.status_msg == old(self).model.status_msg,
            final(self).mode == old(self).mode,
            final(self).quit_times == old(self).quit_times,
    {
        if self.model.text_selected {
            let (anchor_start, anchor_end) = self.model.get_anchors();
            let num_rows = self.model.num_rows();
            let s_len = self.model.row_len(anchor_start.1);
            let e_len = self.model.row_len(anchor_end.1);
            if anchor_end.1 < num_rows && anchor_start.0 <= s_len && anchor_end.0 <= e_len {
                self.states.execute_command(
                    Command::DeleteString { start: anchor_start, end: anchor_end },
                    &mut self.model,
                );
            }
        } else {
            let num_rows = self.model.num_rows();
            let len = self.model.cur_row_len();
            if self.model.cy < num_rows && self.model.cx <= len && !(self.model.cx == 0
                && self.model.cy == 0) {
                self.states.execute_command(
                    Command::DeleteChar { location: (self.model.cx, self.model.cy) },
                    &mut self.model,
                );
            }
        }
        self.model.text_selected = false;
    }

    /// Types one character as an undoable edit: deletes the active selection
    /// first, then inserts at the cursor (appending a row at the buffer
    /// end), merging runs of letters into one undo step.
    pub fn insert_char(&mut self, c: char)
        requires
            old(self).wf(),
            c != '\n',
        ensures
            final(self).wf(),
            ctrl_insert_char_effect(*old(self), *final(self), c),
            final(self).model.status_msg == old(self).model.status_msg,
            final(self).mode == old(self).mode,
            final(self).quit_times == old(self).quit_times,
    {
        let ghost rows = self.model@;
        let ghost s = self.model.spec_anchors().0;
        let ghost e = self.model.spec_anchors().1;
        let ghost ds = EditCommand::DeleteString { start: s, end: e };
        let ghost undo0 = self.states.undo_commands@;
        let ghost steps0 = self.states.undo_steps@;
        let ghost count0 = self.states.change_count;
        let ghost sel = self.model.text_selected && cmd_valid(rows, ds);
        if self.model.text_selected {
            let (anchor_start, anchor_end) = self.model.get_anchors();
            let num_rows = self.model.num_rows();
            let s_len = self.model.row_len(anchor_start.1);
            let e_len = self.model.row_len(anchor_end.1);
            if anchor_end.1 < num_rows && anchor_start.0 <= s_len && anchor_end.0 <= e_len {
                proof {
                    assert(cmd_valid(rows, ds));
                }
                self.states.execute_command(
                    Command::DeleteString { start: anchor_start, end: anchor_end },
                    &mut self.model,
                );
            } else {
                proof {
                    assert(!cmd_valid(rows, ds));
                }
            }
            self.model.text_selected = false;
        }
        let ghost undo1 = self.states.undo_commands@;
        let num_rows = self.model.num_rows();
        if self.model.cy == num_rows {
            proof {
                lemma_stack_push_empty(self.model@, self.states.undo_commands@);
                lemma_stack_push_empty(self.model@, self.states.redo_commands@);
            }
            let empty: Vec<char> = Vec::new();
            self.model.buf.append_row(empty);
            proof {
                assert(self.model.wf());
            }
        }
        proof {
            if sel {
                // The undo entry for the selection deletion is a splice, so
                // the typed character cannot merge into it.
                assert(undo1.last() matches EditCommand::InsertString { location, contents });
            }
        }
        self.states.execute_command(
            Command::InsertChar { location: (self.model.cx, self.model.cy), c },
            &mut self.model,
        );
        self.model.text_selected = false;
        proof {
            if sel {
                let ic = EditCommand::InsertChar { location: s, c };
                assert(merge_result(self.model@, undo1, ic) is None);
                assert(self.states.undo_commands@.drop_last() == undo1);
                assert(self.states.undo_commands@.take(undo0.len() as int) =~= undo0);
                assert(self.states.undo_commands@[undo0.len() as int] == undo1.last());
                assert(self.states.undo_steps@ =~= steps0.push(1).push(1));
                assert(norm_count(bump_count(norm_count(count0 as int))) == bump_count(
                    norm_count(count0 as int),
                ));
            }
        }
    }

    /// Splits the row at the cursor as an undoable edit; at the cursor just
    /// past the last row, an empty row is appended first.
    pub fn insert_newline(&mut self)
        requires
            old(self).wf(),
        ensures
            final(self).wf(),
            ctrl_insert_newline_effect(*old(self), *final(self)),
            final(self).model.status_msg == old(self).model.status_msg,
            final(self).mode == old(self).mode,
            final(self).quit_times == old(self).quit_times,
    {
        let num_rows = self.model.num_rows();
        if self.model.cy == num_rows {
            proof {
                lemma_stack_push_empty(self.model@, self.states.undo_commands@);
                lemma_stack_push_empty(self.model@, self.states.redo_commands@);
            }
            let empty: Vec<char> = Vec::new();
            self.model.buf.append_row(empty);
            proof {
                assert(self.model.wf());
            }
        }
        self.states.execute_command(
            Command::InsertNewline { location: (self.model.cx, self.model.cy) },
            &mut self.model,
        );
    }

    /// One quit press: with no unsaved changes the countdown hits zero at
    /// once; otherwise it decreases and a warning asks for more presses.
    pub fn quit(&mut self) -> (r: u8)
        requires
            old(self).quit_times >= 1,
        ensures
            r == if old(self).model.dirty {
                (old(self).quit_times - 1) as int
            } else {
                0int
            },
            final(self).model.buf == old(self).model.buf,
            final(self).model.cx == old(self).model.cx,
            final(self).model.cy == old(self).model.cy,
            final(self).model.text_selected == old(self).model.text_selected,
            final(self).model.rowoff == old(self).model.rowoff,
            final(self).model.coloff == old(self).model.coloff,
            final(self).model.mode == old(self).model.mode,
            final(self).model.dirty == old(self).model.dirty,
            final(self).model.anchor_start == old(self).model.anchor_start,
            final(self).model.anchor_end == old(self).model.anchor_end,
            final(self).states == old(self).states,
            final(self).quit_times == old(self).quit_times,
            final(self).mode == old(self).mode,
            final(self).wf() == old(self).wf(),
    {
        proof {
            reveal_strlit("Unsaved changes. Press quit ");
            reveal_strlit(" more times to force-quit.");
            assert(vstd::string::is_ascii("Unsaved changes. Press quit "));
            assert(vstd::string::is_ascii(" more times to force-quit."));
        }
        let quit_times: u8 = if !self.model.dirty {
            0
        } else {
            self.quit_times - 1
        };
        if quit_times > 0 {
            let mut msg = str_to_chars("Unsaved changes. Press quit ");
            let digits = usize_to_chars(quit_times as usize);
            extend_chars(&mut msg, &digits);
            let tail = str_to_chars(" more times to force-quit.");
            extend_chars(&mut msg, &tail);
            self.model.status_msg = StatusMsg::Warn(msg);
        }
        quit_times
    }

    /// Clears the quit warning.
    pub fn abort_quit(&mut self)
        ensures
            final(self).model.buf == old(self).model.buf,
            final(self).model.cx == old(self).model.cx,
            final(self).model.cy == old(self).model.cy,
            final(self).model.text_selected == old(self).model.text_selected,
            final(self).model.rowoff == old(self).model.rowoff,
            final(self).model.coloff == old(self).model.coloff,
            final(self).model.mode == old(self).model.mode,
            final(self).model.dirty == old(self).model.dirty,
            final(self).model.anchor_start == old(self).model.anchor_start,
            final(self).model.anchor_end == old(self).model.anchor_end,
            final(self).states == old(self).states,
            final(self).mode == old(self).mode,
            final(self).wf() == old(self).wf(),
            final(self).model.status_msg matches StatusMsg::Normal(m) && m@ == Seq::<
                char,
            >::empty(),
    {
        let empty: Vec<char> = Vec::new();
        self.model.status_msg = StatusMsg::Normal(empty);
    }

    /// Refreshes the dirty flag from the engine before keys are processed:
    /// the model is dirty exactly when there are unsaved changes.
    pub fn sync_dirty(&mut self)
        ensures
            final(self).model.dirty == (old(self).states.change_count != 0),
            final(self).model.buf == old(self).model.buf,
            final(self).model.cx == old(self).model.cx,
            final(self).model.cy == old(self).model.cy,
            final(self).model.text_selected == old(self).model.text_selected,
            final(self).states == old(self).states,
            final(self).mode == old(self).mode,
            final(self).quit_times == old(self).quit_times,
            final(self).wf() == old(self).wf(),
    {
        self.model.dirty = self.states.change_count != 0;
    }

    /// Records that the buffer was written to disk: clears the change count
    /// and the dirty flag.
    pub fn mark_saved(&mut self)
        ensures
            final(self).states.change_count == 0,
            !final(self).model.dirty,
            final(self).model.buf == old(self).model.buf,
            final(self).states.undo_commands == old(self).states.undo_commands,
            final(self).states.undo_steps == old(self).states.undo_steps,
            final(self).states.redo_commands == old(self).states.redo_commands,
            final(self).states.redo_steps == old(self).states.redo_steps,
            final(self).mode == old(self).mode,
    {
        self.states.reset_change_count();
        self.model.dirty = false;
    }

    /// Maps a screen position to the buffer position it shows, adding the
    /// scroll offsets and clamping to the buffer.
    pub fn screen_to_model_coords(&self, x: u16, y: u16) -> (r: (usize, usize))
        ensures
            ({
                let cy0 = crate::edit::sat_add(self.model.rowoff as int, y as int);
                let cy = if cy0 > self.model@.len() {
                    self.model@.len() as int
                } else {
                    cy0
                };
                if cy == self.model@.len() {
                    r.0 == 0 && r.1 == cy
                } else {
                    let cx0 = crate::edit::sat_add(self.model.coloff as int, x as int);
                    let len = self.model@[cy].len() as int;
                    r.1 == cy && r.0 == if cx0 > len {
                        len
                    } else {
                        cx0
                    }
                }
            }),
    {
        let mut cx = self.model.coloff.saturating_add(x as usize);
        let mut cy = self.model.rowoff.saturating_add(y as usize);
        let num_rows = self.model.num_rows();
        if cy > num_rows {
            cy = num_rows;
        }
        if cy == num_rows {
            cx = 0;
        } else {
            let len = self.model.row_len(cy);
            if cx > len {
                cx = len;
            }
        }
        (cx, cy)
    }

    /// Records a pointer press: the cursor and the press anchor move to the
    /// position under the pointer and the selection is dropped.
    pub fn mouse_press(&mut self, x: u16, y: u16)
        requires
            old(self).wf(),
        ensures
            final(self).wf(),
            final(self).model@ == old(self).model@,
            !final(self).model.text_selected,
            final(self).model.anchor_start == (final(self).model.cx, final(self).model.cy),
            final(self).states == old(self).states,
            final(self).mode == old(self).mode,
    {
        let (cx, cy) = self.screen_to_model_coords(x, y);
        self.model.anchor_start = (cx, cy);
        self.model.text_selected = false;
        self.model.cx = cx;
        self.model.cy = cy;
        proof {
            assert(cursor_ok(self.model@, cx as int, cy as int));
        }
    }

    /// Records a pointer drag: the drag anchor and the cursor move to the
    /// position under the pointer; the selection becomes active exactly when
    /// the two anchors differ.
    pub fn mouse_hold(&mut self, x: u16, y: u16)
        requires
            old(self).wf(),
        ensures
            final(self).wf(),
            final(self).model@ == old(self).model@,
            final(self).model.anchor_end == (final(self).model.cx, final(self).model.cy),
            final(self).model.text_selected == (final(self).model.anchor_end != final(self).model.anchor_start),
            final(self).states == old(self).states,
            final(self).mode == old(self).mode,
    {
        let (cx, cy) = self.screen_to_model_coords(x, y);
        self.model.anchor_end = (cx, cy);
        if cx != self.model.anchor_start.0 || cy != self.model.anchor_start.1 {
            self.model.text_selected = true;
        } else {
            self.model.text_selected = false;
        }
        self.model.cx = cx;
        self.model.cy = cy;
        proof {
            assert(cursor_ok(self.model@, cx as int, cy as int));
        }
    }

    /// A pointer release changes nothing.
    pub fn mouse_release(&mut self)
        ensures
            *final(self) == *old(self),
    {
    }

    /// Enters insert mode.
    pub fn enter_insert_mode(&mut self)
        ensures
            final(self).mode is Insert,
            final(self).quit_times == old(self).quit_times,
            final(self).model.mode == 'I',
            final(self).model.buf == old(self).model.buf,
            final(self).model.cx == old(self).model.cx,
            final(self).model.cy == old(self).model.cy,
            final(self).states == old(self).states,
            final(self).wf() == old(self).wf(),
    {
        self.model.mode = 'I';
        self.mode = TerminalMode::Insert;
    }

    /// Enters a prompt mode.
    pub fn enter_prompt_mode(&mut self, prompt: PromptType)
        ensures
            final(self).mode == TerminalMode::Prompt(prompt),
            final(self).quit_times == old(self).quit_times,
            final(self).model.mode == 'P',
            final(self).model.buf == old(self).model.buf,
            final(self).model.cx == old(self).model.cx,
            final(self).model.cy == old(self).model.cy,
            final(self).states == old(self).states,
            final(self).wf() == old(self).wf(),
    {
        self.model.mode = 'P';
        self.mode = TerminalMode::Prompt(prompt);
    }

    /// Returns to normal mode.
    pub fn enter_normal_mode(&mut self)
        ensures
            final(self).mode is Normal,
            final(self).quit_times == old(self).quit_times,
            final(self).model.mode == 'N',
            final(self).model.buf == old(self).model.buf,
            final(self).model.cx == old(self).model.cx,
            final(self).model.cy == old(self).model.cy,
            final(self).states == old(self).states,
            final(self).wf() == old(self).wf(),
    {
        self.model.mode = 'N';
        self.mode = TerminalMode::Normal;
    }

    /// Processes one key in normal mode and says what the caller must do:
    /// arrows and their letter aliases move the cursor, `u` undoes, a
    /// control-r redoes, `i`/`I`/`a`/`A`/`o`/`O` enter insert mode at their
    /// positions, control-q counts down to quitting, control-s saves and
    /// control-f opens the search prompt.
    pub fn process_key_normal(&mut self, key: KeyEvent) -> (r: KeyAction)
        requires
            old(self).wf(),
            old(self).quit_times >= 1,
        ensures
            final(self).wf(),
            final(self).quit_times >= 1 || r is Exit,
            r is Exit ==> final(self).model.buf == old(self).model.buf,
            key.modifiers == KeyModifiers::Control && key.code == KeyCode::Char('q') ==> ((
            r is Exit) == (!old(self).model.dirty || old(self).quit_times == 1)),
            key.modifiers == KeyModifiers::Control && key.code == KeyCode::Char('s') ==> r is Save
                && final(self).model.buf == old(self).model.buf,
            key.modifiers == KeyModifiers::Control && key.code == KeyCode::Char('f')
                ==> r is FindPrompt && final(self).mode == TerminalMode::Prompt(PromptType::Find),
            key.modifiers == KeyModifiers::Plain && (key.code == KeyCode::Char('i') || key.code
                == KeyCode::Char('I') || key.code == KeyCode::Char('a') || key.code
                == KeyCode::Char('A') || key.code == KeyCode::Char('o') || key.code
                == KeyCode::Char('O')) ==> final(self).mode is Insert,
            key.modifiers == KeyModifiers::Plain && (key.code == KeyCode::Left || key.code
                == KeyCode::Right || key.code == KeyCode::Up || key.code == KeyCode::Down)
                ==> ctrl_move_effect(*old(self), *final(self), key.code),
            key.modifiers == KeyModifiers::Plain && (key.code == KeyCode::Char('h') || key.code
                == KeyCode::Backspace || key.code == KeyCode::Delete) ==> ctrl_move_effect(
                *old(self),
                *final(self),
                KeyCode::Left,
            ),
            key.modifiers == KeyModifiers::Plain && key.code == KeyCode::Char('j')
                ==> ctrl_move_effect(*old(self), *final(self), KeyCode::Down),
            key.modifiers == KeyModifiers::Plain && key.code == KeyCode::Char('k')
                ==> ctrl_move_effect(*old(self), *final(self), KeyCode::Up),
            key.modifiers == KeyModifiers::Plain && key.code == KeyCode::Char('l')
                ==> ctrl_move_effect(*old(self), *final(self), KeyCode::Right),
            key.modifiers == KeyModifiers::Plain && key.code == KeyCode::Enter
                ==> ctrl_move_effect(*old(self), *final(self), KeyCode::Down),
            key.modifiers == KeyModifiers::Plain && key.code == KeyCode::Char('i') ==> final(self).model@ == old(self).model@ && final(self).model.cx == old(self).model.cx && final(self).model.cy == old(self).model.cy && final(self).states == old(self).states,
            key.modifiers == KeyModifiers::Plain && key.code == KeyCode::Char('I') ==> final(self).model@ == old(self).model@ && final(self).model.cx == 0 && final(self).model.cy
                == old(self).model.cy && final(self).states == old(self).states,
            key.modifiers == KeyModifiers::Plain && key.code == KeyCode::Char('a')
                ==> final(self).model@ == old(self).model@ && ({
                let t = arrow_target(
                    old(self).model@,
                    old(self).model.cx as int,
                    old(self).model.cy as int,
                    KeyCode::Right,
                );
                final(self).model.cy == t.1 && final(self).model.cx == clamp_col(
                    old(self).model@,
                    t.0,
                    t.1,
                )
            }) && final(self).states == old(self).states,
            key.modifiers == KeyModifiers::Plain && key.code == KeyCode::Char('A') ==> final(self).model@ == old(self).model@ && final(self).model.cx == row_len_at(
                old(self).model@,
                old(self).model.cy as int,
            ) && final(self).model.cy == old(self).model.cy && final(self).states == old(self).states,
            key.modifiers == KeyModifiers::Plain && key.code == KeyCode::Char('o') ==> ({
                let rows = old(self).model@;
                let cx1 = row_len_at(rows, old(self).model.cy as int);
                let rows1 = if old(self).model.cy == rows.len() {
                    rows.push(Seq::empty())
                } else {
                    rows
                };
                let nl = EditCommand::InsertNewline {
                    location: (row_len_at(rows, old(self).model.cy as int) as usize,
                        old(self).model.cy,
                    ),
                };
                &&& final(self).model@ == apply_cmd(rows1, nl)
                &&& final(self).model.cx == 0
                &&& final(self).model.cy == old(self).model.cy + 1
            }),
            key.modifiers == KeyModifiers::Plain && key.code == KeyCode::Char('O') ==> ({
                let rows = old(self).model@;
                let rows1 = if old(self).model.cy == rows.len() {
                    rows.push(Seq::empty())
                } else {
                    rows
                };
                let nl = EditCommand::InsertNewline { location: (0usize, old(self).model.cy) };
                &&& final(self).model@ == apply_cmd(rows1, nl)
                &&& final(self).model.cx == 0
                &&& final(self).model.cy == old(self).model.cy
            }),
            key.modifiers == KeyModifiers::Plain && key.code == KeyCode::Char('u') ==> ({
                let steps = old(self).states.undo_steps@;
                let cmds = old(self).states.undo_commands@;
                if steps.len() == 0 {
                    final(self).model@ == old(self).model@
                } else {
                    final(self).model@ == crate::edit::apply_stack(
                        old(self).model@,
                        cmds.skip(cmds.len() - steps.last()),
                    ) && final(self).states.undo_steps@ == steps.drop_last()
                }
            }),
            key.modifiers == KeyModifiers::Control && key.code == KeyCode::Char('r') ==> ({
                let steps = old(self).states.redo_steps@;
                let cmds = old(self).states.redo_commands@;
                if steps.len() == 0 {
                    final(self).model@ == old(self).model@
                } else {
                    final(self).model@ == crate::edit::apply_stack(
                        old(self).model@,
                        cmds.skip(cmds.len() - steps.last()),
                    ) && final(self).states.redo_steps@ == steps.drop_last()
                }
            }),
    {
        if key.modifiers == KeyModifiers::Control {
            match key.code {
                KeyCode::Char('q') => {
                    let q = self.quit();
                    if q == 0 {
                        return KeyAction::Exit;
                    }
                    self.quit_times = q;
                    return KeyAction::Continue;
                },
                KeyCode::Char('s') => {
                    return KeyAction::Save;
                },
                KeyCode::Char('f') => {
                    self.enter_prompt_mode(PromptType::Find);
                    return KeyAction::FindPrompt;
                },
                KeyCode::Char('r') => {
                    self.states.execute_redo(&mut self.model);
                    return self.after_key();
                },
                KeyCode::Char('h') => {
                    self.move_cursor(KeyCode::Left);
                    return self.after_key();
                },
                _ => {
                    return self.after_key();
                },
            }
        }
        match key.code {
            KeyCode::Char('u') => {
                self.states.execute_undo(&mut self.model);
            },
            KeyCode::Left | KeyCode::Right | KeyCode::Up | KeyCode::Down => {
                self.move_cursor(key.code);
            },
            KeyCode::Backspace | KeyCode::Delete => {
                self.move_cursor(KeyCode::Left);
            },
            KeyCode::Char('h') => {
                self.move_cursor(KeyCode::Left);
            },
            KeyCode::Char('j') => {
                self.move_cursor(KeyCode::Down);
            },
            KeyCode::Char('k') => {
                self.move_cursor(KeyCode::Up);
            },
            KeyCode::Char('l') => {
                self.move_cursor(KeyCode::Right);
            },
            KeyCode::Char('i') => {
                self.enter_insert_mode();
            },
            KeyCode::Char('I') => {
                self.enter_insert_mode();
                self.goto_line_start();
            },
            KeyCode::Char('a') => {
                self.enter_insert_mode();
                self.move_cursor(KeyCode::Right);
            },
            KeyCode::Char('A') => {
                self.enter_insert_mode();
                self.goto_line_end();
            },
            KeyCode::Char('o') => {
                self.enter_insert_mode();
                self.goto_line_end();
                self.insert_newline();
            },
            KeyCode::Char('O') => {
                self.enter_insert_mode();
                self.goto_line_start();
                self.insert_newline();
                self.move_cursor(KeyCode::Up);
            },
            KeyCode::Enter => {
                self.move_cursor(KeyCode::Down);
            },
            _ => {
            },
        }
        self.after_key()
    }

    /// Processes one key in insert mode and says what the caller must do:
    /// printable characters type, Enter splits the row, deletion keys
    /// delete, Escape returns to normal mode, and the control keys save,
    /// search, rename or quit as in normal mode.
    pub fn process_key_insert(&mut self, key: KeyEvent) -> (r: KeyAction)
        requires
            old(self).wf(),
            old(self).quit_times >= 1,
        ensures
            final(self).wf(),
            final(self).quit_times >= 1 || r is Exit,
            r is Exit ==> final(self).model.buf == old(self).model.buf,
            key.modifiers == KeyModifiers::Plain && key.code == KeyCode::Esc ==> final(self).mode
                is Normal && final(self).model@ == old(self).model@,
            key.modifiers == KeyModifiers::Control && key.code == KeyCode::Char('S')
                ==> r is RenamePrompt && final(self).mode == TerminalMode::Prompt(
                PromptType::Rename,
            ),
            key.modifiers == KeyModifiers::Control && key.code == KeyCode::Char('s') ==> r is Save
                && final(self).model.buf == old(self).model.buf,
            key.modifiers != KeyModifiers::Control && (key.code == KeyCode::Backspace || key.code
                == KeyCode::Delete) ==> ctrl_delete_effect(*old(self), *final(self)),
            key.modifiers == KeyModifiers::Control && key.code == KeyCode::Char('h')
                ==> ctrl_delete_effect(*old(self), *final(self)),
            key.modifiers != KeyModifiers::Control && (key.code == KeyCode::Left || key.code
                == KeyCode::Right || key.code == KeyCode::Up || key.code == KeyCode::Down)
                ==> ctrl_move_effect(*old(self), *final(self), key.code),
            key.modifiers != KeyModifiers::Control && (key.code == KeyCode::Enter || key.code
                == KeyCode::Char('\n') || key.code == KeyCode::Char('\r'))
                ==> ctrl_insert_newline_effect(*old(self), *final(self)),
            key.modifiers != KeyModifiers::Control && (key.code matches KeyCode::Char(c) && c
                != '\n' && c != '\r') ==> ctrl_insert_char_effect(
                *old(self),
                *final(self),
                key.code->Char_0,
            ),
    {
        if key.modifiers == KeyModifiers::Control {
            match key.code {
                KeyCode::Char('q') => {
                    let q = self.quit();
                    if q == 0 {
                        return KeyAction::Exit;
                    }
                    self.quit_times = q;
                    return KeyAction::Continue;
                },
                KeyCode::Char('S') => {
                    self.enter_prompt_mode(PromptType::Rename);
                    return KeyAction::RenamePrompt;
                },
                KeyCode::Char('s') => {
                    return KeyAction::Save;
                },
                KeyCode::Char('c') => {
                    self.enter_normal_mode();
                    return self.after_key();
                },
                KeyCode::Char('f') => {
                    self.enter_prompt_mode(PromptType::Find);
                    return KeyAction::FindPrompt;
                },
                KeyCode::Char('h') => {
                    self.delete();
                    return self.after_key();
                },
                _ => {
                    return self.after_key();
                },
            }
        }
        match key.code {
            KeyCode::Esc => {
                self.enter_normal_mode();
            },
            KeyCode::Left | KeyCode::Right | KeyCode::Up | KeyCode::Down => {
                self.move_cursor(key.code);
            },
            KeyCode::Backspace | KeyCode::Delete => {
                self.delete();
            },
            KeyCode::Enter => {
                self.insert_newline();
            },
            KeyCode::Char(c) => {
                if c == '\n' || c == '\r' {
                    self.insert_newline();
                } else {
                    self.insert_char(c);
                }
            },
            _ => {
            },
        }
        self.after_key()
    }

    /// After any key that is not part of a quit run, a pending quit warning
    /// is withdrawn and the countdown refilled.
    fn after_key(&mut self) -> (r: KeyAction)
        requires
            old(self).wf(),
        ensures
            final(self).wf(),
            final(self).quit_times == QUIT_TIMES,
            r is Continue,
            final(self).model@ == old(self).model@,
            final(self).model.buf == old(self).model.buf,
            final(self).model.cx == old(self).model.cx,
            final(self).model.cy == old(self).model.cy,
            final(self).model.text_selected == old(self).model.text_selected,
            final(self).model.rowoff == old(self).model.rowoff,
            final(self).model.coloff == old(self).model.coloff,
            final(self).model.mode == old(self).model.mode,
            final(self).model.dirty == old(self).model.dirty,
            final(self).model.anchor_start == old(self).model.anchor_start,
            final(self).model.anchor_end == old(self).model.anchor_end,
            final(self).states == old(self).states,
            final(self).mode == old(self).mode,
    {
        if self.quit_times != QUIT_TIMES {
            self.abort_quit();
            self.quit_times = QUIT_TIMES;
        }
        KeyAction::Continue
    }

    /// Selects the search occurrence at `idx` and moves the cursor to it.
    pub fn find_apply(&mut self, occurrences: &Vec<(usize, usize)>, idx: usize, term_len: usize)
        requires
            old(self).wf(),
            idx < occurrences@.len(),
            occurrences@[idx as int].0 + term_len <= usize::MAX,
        ensures
            final(self).wf(),
            final(self).model@ == old(self).model@,
            final(self).model.anchor_start == occurrences@[idx as int],
            final(self).model.anchor_end.0 == occurrences@[idx as int].0 + term_len,
            final(self).model.anchor_end.1 == occurrences@[idx as int].1,
            final(self).model.text_selected,
            final(self).states == old(self).states,
    {
        let o = occurrences[idx];
        self.model.anchor_start = (o.0, o.1);
        self.model.anchor_end = (o.0 + term_len, o.1);
        self.model.text_selected = true;
        let x = o.0;
        let y = o.1;
        self.model.set_cursor(x, y);
    }
}

} // verus!
