//! Edit commands and the pane's editing component.
//!
//! An `EditCommand` is a tagged edit operation over a text buffer. Executing
//! a command returns another command, its exact inverse: running the inverse
//! against the buffer the execution produced restores the buffer it started
//! from. `FileEditComponent` owns one buffer together with the undo/redo
//! stacks, cursor, selection anchors and wrap width of one pane.

use vstd::prelude::*;

use crate::display::{Cell, Color, Display, row_chars, lemma_row_chars_push};
use crate::text::{str_to_chars, usize_to_chars, dec_digits, copy_range, extend_chars};
use crate::ui::{Rect, Event, EventResponse, KeyCode, KeyEvent, MouseEvent, MouseEventKind};
use crate::file::{FileState, insert_newline_spec, insert_char_spec, insert_string_spec,
    insert_string_coord, delete_char_spec, delete_char_coord, delete_range_spec, selection_spec,
    get_char_spec, clamp_spec};
use crate::laws::{lemma_insert_newline_inverse, lemma_insert_char_inverse,
    lemma_insert_string_inverse, lemma_delete_char_inverse, lemma_delete_range_inverse};
use crate::text::{lines_wf, line_wf};

verus! {

/// The glyph drawn in the last column of every pane row: the pane border.
pub const BORDER: char = '\u{2503}';

/// One tagged edit operation. Coordinates are `(column, row)` pairs into the
/// buffer the command is executed against.
pub enum EditCommand {
    /// Split the row at `location` in two.
    InsertNewline { location: (usize, usize) },
    /// Splice `contents` (possibly holding newlines) in at `location`.
    InsertString { location: (usize, usize), contents: Vec<char> },
    /// Delete the half-open row-major range `[start, end)`.
    DeleteString { start: (usize, usize), end: (usize, usize) },
    /// Insert the character `c` at `location`.
    InsertChar { location: (usize, usize), c: char },
    /// Delete the character just before `location`.
    DeleteChar { location: (usize, usize) },
}

/// Whether the character counts as alphabetic for undo-run merging.
pub uninterp spec fn is_alpha(c: char) -> bool;

/// Relies on char::is_alphabetic of std: whether the character has the
/// Unicode Alphabetic property. The result depends on the character alone.
#[verifier::external_body]
pub(crate) fn char_is_alphabetic(c: char) -> (r: bool)
    ensures
        r == is_alpha(c),
{
    c.is_alphabetic()
}

/// The command's coordinates lie within the buffer, so that executing it
/// neither fails nor leaves an inverse that cannot be executed.
pub open spec fn cmd_valid(rows: Seq<Seq<char>>, cmd: EditCommand) -> bool {
    match cmd {
        EditCommand::InsertNewline { location } => {
            &&& location.1 < rows.len()
            &&& location.0 <= rows[location.1 as int].len()
        },
        EditCommand::InsertString { location, contents } => {
            &&& location.1 < rows.len()
            &&& location.0 <= rows[location.1 as int].len()
        },
        EditCommand::DeleteString { start, end } => {
            &&& start.1 <= end.1 < rows.len()
            &&& (start.1 == end.1 ==> start.0 <= end.0)
            &&& start.0 <= rows[start.1 as int].len()
            &&& end.0 <= rows[end.1 as int].len()
        },
        EditCommand::InsertChar { location, c } => {
            &&& location.1 < rows.len()
            &&& location.0 <= rows[location.1 as int].len()
            &&& c != '\n'
        },
        EditCommand::DeleteChar { location } => {
            &&& location.1 < rows.len()
            &&& location.0 <= rows[location.1 as int].len()
            &&& !(location.0 == 0 && location.1 == 0)
        },
    }
}

/// The buffer after executing the command.
pub open spec fn apply_cmd(rows: Seq<Seq<char>>, cmd: EditCommand) -> Seq<Seq<char>> {
    match cmd {
        EditCommand::InsertNewline { location } => insert_newline_spec(
            rows,
            location.0 as int,
            location.1 as int,
        ),
        EditCommand::InsertString { location, contents } => insert_string_spec(
            rows,
            location.0 as int,
            location.1 as int,
            contents@,
        ),
        EditCommand::DeleteString { start, end } => delete_range_spec(
            rows,
            start.0 as int,
            start.1 as int,
            end.0 as int,
            end.1 as int,
        ),
        EditCommand::InsertChar { location, c } => insert_char_spec(
            rows,
            location.0 as int,
            location.1 as int,
            c,
        ),
        EditCommand::DeleteChar { location } => delete_char_spec(
            rows,
            location.0 as int,
            location.1 as int,
        ),
    }
}

/// The cursor position after executing the command.
pub open spec fn cmd_cursor(rows: Seq<Seq<char>>, cmd: EditCommand) -> (int, int) {
    match cmd {
        EditCommand::InsertNewline { location } => (0, location.1 + 1),
        EditCommand::InsertString { location, contents } => insert_string_coord(
            rows,
            location.0 as int,
            location.1 as int,
            contents@,
        ),
        EditCommand::DeleteString { start, end } => (start.0 as int, start.1 as int),
        EditCommand::InsertChar { location, c } => (location.0 + 1, location.1 as int),
        EditCommand::DeleteChar { location } => delete_char_coord(
            rows,
            location.0 as int,
            location.1 as int,
        ),
    }
}

/// The cursor lies within the buffer: on a row, at or before its end, or
/// just past the last row at column zero.
pub open spec fn cursor_ok(rows: Seq<Seq<char>>, col: int, row: int) -> bool {
    &&& 0 <= col
    &&& 0 <= row <= rows.len()
    &&& row < rows.len() ==> col <= rows[row].len()
    &&& row == rows.len() ==> col == 0
}

/// `inv` is exactly the inverse that executing `cmd` against `rows` yields:
/// the command that, executed next, undoes `cmd`.
pub open spec fn inverse_ok(rows: Seq<Seq<char>>, cmd: EditCommand, inv: EditCommand) -> bool {
    match cmd {
        EditCommand::InsertNewline { location } => {
            &&& inv matches EditCommand::DeleteChar { location: l }
            &&& l.0 == 0
            &&& l.1 == location.1 + 1
        },
        EditCommand::InsertString { location, contents } => {
            &&& inv matches EditCommand::DeleteString { start, end }
            &&& start == location
            &&& (end.0 as int, end.1 as int) == insert_string_coord(
                rows,
                location.0 as int,
                location.1 as int,
                contents@,
            )
        },
        EditCommand::DeleteString { start, end } => {
            &&& inv matches EditCommand::InsertString { location, contents }
            &&& location == start
            &&& contents@ == selection_spec(
                rows,
                start.0 as int,
                start.1 as int,
                end.0 as int,
                end.1 as int,
            )
        },
        EditCommand::InsertChar { location, c } => {
            &&& inv matches EditCommand::DeleteChar { location: l }
            &&& l.0 == location.0 + 1
            &&& l.1 == location.1
        },
        EditCommand::DeleteChar { location } => {
            if location.0 == 0 {
                &&& inv matches EditCommand::InsertNewline { location: l }
                &&& (l.0 as int, l.1 as int) == delete_char_coord(
                    rows,
                    location.0 as int,
                    location.1 as int,
                )
            } else {
                &&& inv matches EditCommand::InsertChar { location: l, c }
                &&& (l.0 as int, l.1 as int) == delete_char_coord(
                    rows,
                    location.0 as int,
                    location.1 as int,
                )
                &&& c == get_char_spec(rows, location.0 as int, location.1 as int)
            }
        },
    }
}

/// Inverse exactness: for every edit command valid in a buffer, the inverse
/// that executing it yields is itself valid in the resulting buffer, and
/// executing that inverse restores the original buffer exactly.
pub proof fn lemma_command_inverse(rows: Seq<Seq<char>>, cmd: EditCommand, inv: EditCommand)
    requires
        lines_wf(rows),
        cmd_valid(rows, cmd),
        inverse_ok(rows, cmd, inv),
    ensures
        cmd_valid(apply_cmd(rows, cmd), inv),
        apply_cmd(apply_cmd(rows, cmd), inv) == rows,
        lines_wf(apply_cmd(rows, cmd)),
        cursor_ok(apply_cmd(rows, cmd), cmd_cursor(rows, cmd).0, cmd_cursor(rows, cmd).1),
{
    let rows1 = apply_cmd(rows, cmd);
    match cmd {
        EditCommand::InsertNewline { location } => {
            lemma_insert_newline_inverse(rows, location.0 as int, location.1 as int);
            assert(lines_wf(rows1));
        },
        EditCommand::InsertString { location, contents } => {
            lemma_insert_string_inverse(rows, location.0 as int, location.1 as int, contents@);
        },
        EditCommand::DeleteString { start, end } => {
            lemma_delete_range_inverse(
                rows,
                start.0 as int,
                start.1 as int,
                end.0 as int,
                end.1 as int,
            );
        },
        EditCommand::InsertChar { location, c } => {
            lemma_insert_char_inverse(rows, location.0 as int, location.1 as int, c);
            assert(lines_wf(rows1));
        },
        EditCommand::DeleteChar { location } => {
            lemma_delete_char_inverse(rows, location.0 as int, location.1 as int);
        },
    }
}


/// Executing a valid command keeps every row a proper line.
pub proof fn lemma_cmd_lines_wf(rows: Seq<Seq<char>>, cmd: EditCommand)
    requires
        lines_wf(rows),
        cmd_valid(rows, cmd),
    ensures
        lines_wf(apply_cmd(rows, cmd)),
{
    match cmd {
        EditCommand::InsertNewline { location } => {
            assert(lines_wf(apply_cmd(rows, cmd)));
        },
        EditCommand::InsertString { location, contents } => {
            crate::laws::lemma_insert_string_inverse(
                rows,
                location.0 as int,
                location.1 as int,
                contents@,
            );
        },
        EditCommand::DeleteString { start, end } => {
            crate::laws::lemma_delete_range_inverse(
                rows,
                start.0 as int,
                start.1 as int,
                end.0 as int,
                end.1 as int,
            );
        },
        EditCommand::InsertChar { location, c } => {
            assert(line_wf(apply_cmd(rows, cmd)[location.1 as int]));
            assert(lines_wf(apply_cmd(rows, cmd)));
        },
        EditCommand::DeleteChar { location } => {
            crate::laws::lemma_delete_char_inverse(rows, location.0 as int, location.1 as int);
        },
    }
}

/// A command valid in a buffer stays valid, and applies the same way, after
/// an empty row is appended past the end of the buffer.
pub proof fn lemma_cmd_push_empty(rows: Seq<Seq<char>>, cmd: EditCommand)
    requires
        cmd_valid(rows, cmd),
    ensures
        cmd_valid(rows.push(Seq::empty()), cmd),
        apply_cmd(rows.push(Seq::empty()), cmd) == apply_cmd(rows, cmd).push(Seq::empty()),
{
    let rows_e = rows.push(Seq::<char>::empty());
    match cmd {
        EditCommand::InsertNewline { location } => {
            assert(apply_cmd(rows_e, cmd) =~~= apply_cmd(rows, cmd).push(Seq::empty()));
        },
        EditCommand::InsertString { location, contents } => {
            assert(rows_e[location.1 as int] == rows[location.1 as int]);
            assert(apply_cmd(rows_e, cmd) =~~= apply_cmd(rows, cmd).push(Seq::empty()));
        },
        EditCommand::DeleteString { start, end } => {
            assert(apply_cmd(rows_e, cmd) =~~= apply_cmd(rows, cmd).push(Seq::empty()));
        },
        EditCommand::InsertChar { location, c } => {
            assert(rows_e[location.1 as int] == rows[location.1 as int]);
            assert(apply_cmd(rows_e, cmd) =~~= apply_cmd(rows, cmd).push(Seq::empty()));
        },
        EditCommand::DeleteChar { location } => {
            assert(apply_cmd(rows_e, cmd) =~~= apply_cmd(rows, cmd).push(Seq::empty()));
        },
    }
}

/// A stack of executable commands stays executable after an empty row is
/// appended past the end of the buffer: no command's coordinates reach it.
pub proof fn lemma_stack_push_empty(rows: Seq<Seq<char>>, cmds: Seq<EditCommand>)
    requires
        stack_valid(rows, cmds),
    ensures
        stack_valid(rows.push(Seq::empty()), cmds),
    decreases cmds.len(),
{
    if cmds.len() > 0 {
        let top = cmds.last();
        lemma_cmd_push_empty(rows, top);
        lemma_stack_push_empty(apply_cmd(rows, top), cmds.drop_last());
    }
}


/// The length of row `row`, or zero past the end.
pub open spec fn row_len_at(rows: Seq<Seq<char>>, row: int) -> int {
    if 0 <= row < rows.len() {
        rows[row].len() as int
    } else {
        0
    }
}

/// How many screen lines row `row` occupies in a pane of width `w`: one,
/// plus one for each full wrap at `w - 1` columns (the last column is the
/// pane border).
pub open spec fn row_height_spec(rows: Seq<Seq<char>>, row: int, w: int) -> int {
    if w < 2 {
        1
    } else {
        let len = row_len_at(rows, row);
        1 + (if len == 0 {
            0int
        } else {
            len - 1
        }) / (w - 1)
    }
}

/// Walks screen line `y` down from buffer row `row`: returns the buffer row
/// the screen line falls in and how many screen lines into that row it is.
pub open spec fn locate_visual_row(rows: Seq<Seq<char>>, y: int, w: int, row: int) -> (int, int)
    decreases y,
{
    let h = row_height_spec(rows, row, w);
    if 0 < h <= y {
        locate_visual_row(rows, y - h, w, row + 1)
    } else {
        (row, y)
    }
}

/// The number of extra screen lines that wrapping the rows `[from, to)` at
/// `w - 1` columns adds.
pub open spec fn wrap_sum(rows: Seq<Seq<char>>, from: int, to: int, w: int) -> int
    decreases to - from,
{
    if from >= to || w < 2 {
        0
    } else {
        row_len_at(rows, from) / (w - 1) + wrap_sum(rows, from + 1, to, w)
    }
}

/// Extending a wrap sum by one more row adds that row's wrapped lines.
pub proof fn lemma_wrap_sum_snoc(rows: Seq<Seq<char>>, from: int, to: int, w: int)
    requires
        from <= to,
        w >= 2,
    ensures
        wrap_sum(rows, from, to + 1, w) == wrap_sum(rows, from, to, w) + row_len_at(rows, to) / (w
            - 1),
    decreases to - from,
{
    if from == to {
        assert(wrap_sum(rows, to + 1, to + 1, w) == 0);
    } else {
        lemma_wrap_sum_snoc(rows, from + 1, to, w);
    }
}

/// Saturating addition on the machine word.
pub open spec fn sat_add(a: int, b: int) -> int {
    if a + b > usize::MAX {
        usize::MAX as int
    } else {
        a + b
    }
}


/// `n` spaces (none for a non-positive count).
pub open spec fn spaces(n: int) -> Seq<char> {
    if n <= 0 {
        Seq::empty()
    } else {
        Seq::new(n as nat, |i: int| ' ')
    }
}

/// The slice state one step after `st`: showing one screen line of a file
/// row either finishes the row (the next line starts the next row) or leaves
/// the rest of the row for the next line. Past the end of the buffer the
/// state no longer moves.
pub open spec fn advance_state(rows: Seq<Seq<char>>, w: int, st: (int, int)) -> (int, int) {
    if st.0 >= rows.len() {
        st
    } else {
        let len = rows[st.0].len() as int;
        let j = if len - st.1 > w - 1 {
            st.1 + w - 1
        } else {
            len
        };
        if j == len {
            (st.0 + 1, 0)
        } else {
            (st.0, j)
        }
    }
}

/// The (file row, slice start) pair shown on screen line `v` of a pane of
/// width `w` whose first line shows row `rowoff` from its start.
pub open spec fn show_state(rows: Seq<Seq<char>>, rowoff: int, w: int, v: int) -> (int, int)
    decreases v,
{
    if v <= 0 {
        (rowoff, 0)
    } else {
        advance_state(rows, w, show_state(rows, rowoff, w, v - 1))
    }
}

/// The characters of one rendered screen line: a slice of a file row padded
/// with spaces, or a placeholder past the end of the buffer, and the border
/// glyph in the last column either way.
pub open spec fn view_row_chars(rows: Seq<Seq<char>>, st: (int, int), w: int) -> Seq<char> {
    if st.0 >= rows.len() {
        seq!['~'] + spaces(w - 2) + seq![BORDER]
    } else {
        let len = rows[st.0].len() as int;
        let j = if len - st.1 > w - 1 {
            st.1 + w - 1
        } else {
            len
        };
        rows[st.0].subrange(st.1, j) + spaces(w - 1 - (j - st.1)) + seq![BORDER]
    }
}


/// The status line of a pane: the file name (or a placeholder), the row
/// count, a modified marker, the extension (or a plain-text marker) at the
/// right edge, padded or truncated to the pane width.
pub open spec fn info_chars(
    name: Seq<char>,
    ext: Seq<char>,
    lines: int,
    modified: bool,
    width: int,
) -> Seq<char> {
    let name1 = if name.len() == 0 {
        "[No name]"@
    } else {
        name
    };
    let ext1 = if ext.len() == 0 {
        "Plaintext"@
    } else {
        ext
    };
    let lstatus = seq![' '] + name1 + " - "@ + dec_digits(lines) + " lines "@ + (if modified {
        "(modified)"@
    } else {
        Seq::<char>::empty()
    });
    let rstatus = ext1 + seq![' '];
    let msg = lstatus + spaces(width - lstatus.len() - rstatus.len()) + rstatus;
    if msg.len() > width {
        msg.take(width)
    } else {
        msg + spaces(width - msg.len())
    }
}


/// A message another component sends a pane.
pub enum EditMsg {
    /// Undo one user-visible step.
    Undo,
    /// Redo one user-visible step.
    Redo,
}

/// What `delete` does to a pane; see `FileEditComponent::delete`.
pub open spec fn delete_effect(pre: FileEditComponent, post: FileEditComponent) -> bool {
    let rows = pre.filestate@;
    let s = pre.spec_anchors().0;
    let e = pre.spec_anchors().1;
    let ds = EditCommand::DeleteString { start: s, end: e };
    let dc = EditCommand::DeleteChar { location: pre.cursor };
    &&& !post.text_selected
    &&& post.filestate.spec_meta() == pre.filestate.spec_meta()
    &&& post.wrap_width == pre.wrap_width
    &&& post.rowoff == pre.rowoff
    &&& if pre.text_selected {
        if pre.spec_selection_valid() {
            &&& post.filestate@ == apply_cmd(rows, ds)
            &&& post.cursor == s
            &&& post.redo_commands@.len() == 0
            &&& post.undo_commands@.len() == pre.undo_commands@.len() + 1
            &&& inverse_ok(rows, ds, post.undo_commands@.last())
            &&& post.undo_steps@ == pre.undo_steps@.push(1)
        } else {
            post.filestate == pre.filestate && post.cursor == pre.cursor
                && post.undo_commands == pre.undo_commands
        }
    } else if pre.cursor.1 >= rows.len() {
        &&& post.filestate == pre.filestate
        &&& post.cursor.1 == if pre.cursor.1 > 0 {
            pre.cursor.1 - 1
        } else {
            0int
        }
        &&& post.cursor.0 == if pre.cursor.1 > 0 {
            row_len_at(rows, pre.cursor.1 - 1)
        } else {
            0int
        }
        &&& post.undo_commands == pre.undo_commands
    } else if pre.cursor.0 == 0 && pre.cursor.1 == 0 {
        post.filestate == pre.filestate && post.cursor == pre.cursor && post.undo_commands
            == pre.undo_commands
    } else {
        &&& post.filestate@ == apply_cmd(rows, dc)
        &&& (post.cursor.0 as int, post.cursor.1 as int) == cmd_cursor(rows, dc)
        &&& post.redo_commands@.len() == 0
        &&& post.undo_commands@.len() == pre.undo_commands@.len() + 1
        &&& inverse_ok(rows, dc, post.undo_commands@.last())
        &&& post.undo_steps@ == pre.undo_steps@.push(1)
    }
}

/// What typing a character does to a pane; see
/// `FileEditComponent::insert_char`.
pub open spec fn insert_char_effect(pre: FileEditComponent, post: FileEditComponent, c: char) -> bool {
    let rows = pre.filestate@;
    let s = pre.spec_anchors().0;
    let e = pre.spec_anchors().1;
    let ds = EditCommand::DeleteString { start: s, end: e };
    let sel = pre.text_selected && pre.spec_selection_valid();
    let rows1 = if sel {
        apply_cmd(rows, ds)
    } else {
        rows
    };
    let cur1 = if sel {
        s
    } else {
        pre.cursor
    };
    let rows2 = if cur1.1 == rows1.len() {
        rows1.push(Seq::empty())
    } else {
        rows1
    };
    let ic = EditCommand::InsertChar { location: cur1, c };
    &&& !post.text_selected
    &&& post.filestate.spec_meta() == pre.filestate.spec_meta()
    &&& post.wrap_width == pre.wrap_width
    &&& post.rowoff == pre.rowoff
    &&& post.redo_commands@.len() == 0
    &&& post.redo_steps@.len() == 0
    &&& if sel {
        &&& post.undo_commands@.len() == pre.undo_commands@.len() + 2
        &&& post.undo_commands@.take(pre.undo_commands@.len() as int) == pre.undo_commands@
        &&& inverse_ok(rows, ds, post.undo_commands@[pre.undo_commands@.len() as int])
        &&& inverse_ok(rows2, ic, post.undo_commands@.last())
        &&& post.undo_steps@ == pre.undo_steps@.push(1).push(1)
        &&& post.change_count == bump_count(bump_count(norm_count(pre.change_count as int)))
    } else {
        &&& post.change_count == bump_count(norm_count(pre.change_count as int))
        &&& match merge_result(apply_cmd(rows2, ic), pre.undo_commands@, ic) {
            Option::Some(merged) => {
                &&& post.undo_commands@ == merged
                &&& post.undo_steps@ == pre.undo_steps@
            },
            Option::None => {
                &&& post.undo_commands@.len() == pre.undo_commands@.len() + 1
                &&& post.undo_commands@.drop_last() == pre.undo_commands@
                &&& inverse_ok(rows2, ic, post.undo_commands@.last())
                &&& post.undo_steps@ == pre.undo_steps@.push(1)
            },
        }
    }
    &&& post.filestate@ == apply_cmd(rows2, ic)
    &&& post.cursor.0 == cur1.0 + 1
    &&& post.cursor.1 == cur1.1
}

/// What a newline at the cursor does to a pane; see
/// `FileEditComponent::insert_newline`.
pub open spec fn insert_newline_effect(pre: FileEditComponent, post: FileEditComponent) -> bool {
    let rows = pre.filestate@;
    let rows1 = if pre.cursor.1 == rows.len() {
        rows.push(Seq::empty())
    } else {
        rows
    };
    let nl = EditCommand::InsertNewline { location: pre.cursor };
    &&& post.filestate.spec_meta() == pre.filestate.spec_meta()
    &&& post.wrap_width == pre.wrap_width
    &&& post.rowoff == pre.rowoff
    &&& post.text_selected == pre.text_selected
    &&& post.redo_commands@.len() == 0
    &&& post.filestate@ == apply_cmd(rows1, nl)
    &&& post.cursor.0 == 0
    &&& post.cursor.1 == pre.cursor.1 + 1
    &&& post.undo_commands@.len() == pre.undo_commands@.len() + 1
    &&& inverse_ok(rows1, nl, post.undo_commands@.last())
    &&& post.undo_steps@ == pre.undo_steps@.push(1)
}

/// What a pointer press does to a pane; see `FileEditComponent::mouse_down`.
pub open spec fn mouse_down_effect(
    pre: FileEditComponent,
    post: FileEditComponent,
    x: u16,
    y: u16,
) -> bool {
    let loc = locate_visual_row(pre.filestate@, y as int, pre.wrap_width as int, 0);
    let col = sat_add(loc.1 * (pre.wrap_width - 1), x as int);
    &&& post.filestate == pre.filestate
    &&& !post.text_selected
    &&& post.anchor_start == post.cursor
    &&& post.anchor_end == pre.anchor_end
    &&& (post.cursor.0 as int, post.cursor.1 as int) == clamp_spec(pre.filestate@, col, loc.0)
    &&& post.undo_commands == pre.undo_commands
    &&& post.wrap_width == pre.wrap_width
    &&& post.rowoff == pre.rowoff
}

/// What a pointer drag does to a pane; see `FileEditComponent::mouse_drag`.
pub open spec fn mouse_drag_effect(
    pre: FileEditComponent,
    post: FileEditComponent,
    x: u16,
    y: u16,
) -> bool {
    let loc = locate_visual_row(pre.filestate@, y as int, pre.wrap_width as int, 0);
    let col = sat_add(loc.1 * (pre.wrap_width - 1), x as int);
    &&& post.filestate == pre.filestate
    &&& post.anchor_start == pre.anchor_start
    &&& post.cursor == post.anchor_end
    &&& post.text_selected == (post.anchor_end != post.anchor_start)
    &&& (post.anchor_end.0 as int, post.anchor_end.1 as int) == clamp_spec(
        pre.filestate@,
        col,
        loc.0,
    )
    &&& post.undo_commands == pre.undo_commands
    &&& post.wrap_width == pre.wrap_width
    &&& post.rowoff == pre.rowoff
}


/// What routing one input event does to a pane; the per-arm effects of
/// `FileEditComponent::handle_event`.
pub open spec fn pane_event_effect(
    pre: FileEditComponent,
    post: FileEditComponent,
    event: Event,
    resp: EventResponse,
) -> bool {
    match event {
        Event::Mouse(m) => {
            if m.kind == MouseEventKind::Down {
                &&& mouse_down_effect(pre, post, m.column, m.row)
                &&& resp == if pre.text_selected {
                    EventResponse::RedrawDisplay
                } else {
                    EventResponse::MoveCursor
                }
            } else if m.kind == MouseEventKind::Drag {
                &&& mouse_drag_effect(pre, post, m.column, m.row)
                &&& resp == EventResponse::RedrawDisplay
            } else {
                post == pre && resp == EventResponse::NoResponse
            }
        },
        Event::Key(k) => {
            if k.code == KeyCode::Up || k.code == KeyCode::Down || k.code == KeyCode::Left
                || k.code == KeyCode::Right {
                &&& post.filestate == pre.filestate
                &&& !post.text_selected
                &&& post.undo_commands == pre.undo_commands
                &&& resp == EventResponse::MoveCursor
            } else if k.code == KeyCode::Delete || k.code == KeyCode::Backspace || (k.code
                == KeyCode::Char('h') && k.modifiers == crate::ui::KeyModifiers::Control) {
                &&& delete_effect(pre, post)
                &&& resp == EventResponse::RedrawDisplay
            } else if k.code == KeyCode::Enter || k.code == KeyCode::Char('\n') || k.code
                == KeyCode::Char('\r') {
                &&& insert_newline_effect(pre, post)
                &&& resp == EventResponse::RedrawDisplay
            } else if k.code matches KeyCode::Char(c) {
                &&& insert_char_effect(pre, post, k.code->Char_0)
                &&& resp == EventResponse::RedrawDisplay
            } else {
                post == pre && resp == EventResponse::NoResponse
            }
        },
        Event::Resize(a, b) => post == pre && resp == EventResponse::NoResponse,
    }
}

/// What an undo or redo message does to a pane; the effect of
/// `FileEditComponent::send_msg`.
pub open spec fn pane_msg_effect(
    pre: FileEditComponent,
    post: FileEditComponent,
    msg: EditMsg,
    resp: EventResponse,
) -> bool {
    &&& resp == EventResponse::RedrawDisplay
    &&& msg is Undo ==> post.redo_steps@.len() >= pre.redo_steps@.len()
    &&& msg is Undo && pre.undo_steps@.len() == 0 ==> post.filestate == pre.filestate
    &&& msg is Undo && pre.undo_steps@.len() > 0 ==> ({
        let n = pre.undo_steps@.last() as int;
        let len0 = pre.undo_commands@.len() as int;
        &&& post.filestate@ == apply_stack(pre.filestate@, pre.undo_commands@.skip(len0 - n))
        &&& post.undo_steps@ == pre.undo_steps@.drop_last()
        &&& post.undo_commands@ == pre.undo_commands@.take(len0 - n)
    })
    &&& msg is Redo && pre.redo_steps@.len() == 0 ==> post.filestate == pre.filestate
    &&& msg is Redo && pre.redo_steps@.len() > 0 ==> ({
        let n = pre.redo_steps@.last() as int;
        let len0 = pre.redo_commands@.len() as int;
        &&& post.filestate@ == apply_stack(pre.filestate@, pre.redo_commands@.skip(len0 - n))
        &&& post.redo_steps@ == pre.redo_steps@.drop_last()
        &&& post.redo_commands@ == pre.redo_commands@.take(len0 - n)
    })
}


/// What rendering one pane does to the display: inside its rectangle every
/// content line holds the pane's wrapped slice (placeholder past the buffer
/// end) with the border glyph last, the bottom line holds the status text,
/// rows outside the rectangle are untouched, and the dirty range widens over
/// the touched rows. Panes too narrow or too short draw nothing.
pub open spec fn pane_draw_effect(
    pre: Display,
    post: Display,
    view: FileEditComponent,
    bounds: Rect,
) -> bool {
    &&& post.width == pre.width
    &&& post.height == pre.height
    &&& if bounds.width < 2 || bounds.height < 1 {
        post == pre
    } else {
        &&& post.grid_view().len() == pre.grid_view().len()
        &&& forall|v: int|
            0 <= v < bounds.height - 1 && bounds.y + v < pre.height
                ==> crate::display::row_written(
                #[trigger] post.grid_view()[bounds.y + v],
                pre.grid_view()[bounds.y + v],
                bounds.x as int,
                view_row_chars(
                    view.filestate@,
                    show_state(view.filestate@, view.rowoff as int, bounds.width as int, v),
                    bounds.width as int,
                ),
            )
        &&& (bounds.y + bounds.height - 1 < pre.height ==> crate::display::row_written(
            post.grid_view()[bounds.y + bounds.height - 1],
            pre.grid_view()[bounds.y + bounds.height - 1],
            bounds.x as int,
            info_chars(
                view.filestate.spec_meta().0,
                view.filestate.spec_meta().2,
                view.filestate@.len() as int,
                view.change_count != 0,
                bounds.width as int,
            ),
        ))
        &&& forall|y: int|
            0 <= y < pre.height && !(bounds.y <= y < bounds.y + bounds.height)
                ==> #[trigger] post.grid_view()[y] == pre.grid_view()[y]
        &&& if bounds.y < pre.height {
            &&& post.min_row == if bounds.y < pre.min_row {
                bounds.y as int
            } else {
                pre.min_row as int
            }
            &&& post.max_row == ({
                let hi = if bounds.y + bounds.height > pre.height {
                    pre.height as int
                } else {
                    bounds.y + bounds.height
                };
                if hi > pre.max_row {
                    hi
                } else {
                    pre.max_row as int
                }
            })
        } else {
            post.min_row == pre.min_row && post.max_row == pre.max_row
        }
    }
}

/// The sum of the run lengths on a step stack.
pub open spec fn sum_steps(steps: Seq<usize>) -> int
    decreases steps.len(),
{
    if steps.len() == 0 {
        0
    } else {
        steps.last() + sum_steps(steps.drop_last())
    }
}

/// Every command on the stack can be executed, in order from the top, each
/// against the buffer the ones above it produce.
pub open spec fn stack_valid(rows: Seq<Seq<char>>, cmds: Seq<EditCommand>) -> bool
    decreases cmds.len(),
{
    cmds.len() == 0 || {
        &&& cmd_valid(rows, cmds.last())
        &&& stack_valid(apply_cmd(rows, cmds.last()), cmds.drop_last())
    }
}

/// The buffer after executing the commands in order from the top (the last
/// element first).
pub open spec fn apply_stack(rows: Seq<Seq<char>>, cmds: Seq<EditCommand>) -> Seq<Seq<char>>
    decreases cmds.len(),
{
    if cmds.len() == 0 {
        rows
    } else {
        apply_stack(apply_cmd(rows, cmds.last()), cmds.drop_last())
    }
}

/// The cursor after executing the commands in order from the top, starting
/// from `cur`.
pub open spec fn apply_stack_cursor(
    rows: Seq<Seq<char>>,
    cmds: Seq<EditCommand>,
    cur: (int, int),
) -> (int, int)
    decreases cmds.len(),
{
    if cmds.len() == 0 {
        cur
    } else {
        apply_stack_cursor(apply_cmd(rows, cmds.last()), cmds.drop_last(), cmd_cursor(rows, cmds.last()))
    }
}

/// `pushed` holds exactly the inverses of the commands of `undone`, in the
/// order an undo run produces them: the inverse of the top of `undone`
/// first, each taken against the buffer its command was executed in.
pub open spec fn redo_chain_ok(
    rows: Seq<Seq<char>>,
    undone: Seq<EditCommand>,
    pushed: Seq<EditCommand>,
) -> bool
    decreases undone.len(),
{
    if undone.len() == 0 {
        pushed.len() == 0
    } else {
        &&& pushed.len() == undone.len()
        &&& inverse_ok(rows, undone.last(), pushed[0])
        &&& redo_chain_ok(apply_cmd(rows, undone.last()), undone.drop_last(), pushed.drop_first())
    }
}

/// Prepending a deeper command applies it after all the others.
pub proof fn lemma_apply_stack_prepend(
    rows: Seq<Seq<char>>,
    cmds: Seq<EditCommand>,
    u: EditCommand,
    cur: (int, int),
)
    ensures
        apply_stack(rows, seq![u] + cmds) == apply_cmd(apply_stack(rows, cmds), u),
        apply_stack_cursor(rows, seq![u] + cmds, cur) == cmd_cursor(apply_stack(rows, cmds), u),
    decreases cmds.len(),
{
    let ext = seq![u] + cmds;
    assert(ext.len() == cmds.len() + 1);
    if cmds.len() == 0 {
        assert(ext.last() == u);
        assert(ext.drop_last() =~= Seq::<EditCommand>::empty());
        assert(apply_stack(rows, ext) == apply_stack(apply_cmd(rows, u), ext.drop_last()));
        assert(apply_stack(apply_cmd(rows, u), Seq::<EditCommand>::empty()) == apply_cmd(rows, u));
        assert(apply_stack(rows, cmds) == rows);
        assert(apply_stack_cursor(rows, ext, cur) == apply_stack_cursor(
            apply_cmd(rows, u),
            ext.drop_last(),
            cmd_cursor(rows, u),
        ));
    } else {
        assert(ext.last() == cmds.last());
        assert(ext.drop_last() =~= seq![u] + cmds.drop_last());
        lemma_apply_stack_prepend(
            apply_cmd(rows, cmds.last()),
            cmds.drop_last(),
            u,
            cmd_cursor(rows, cmds.last()),
        );
        assert(apply_stack(rows, ext) == apply_stack(
            apply_cmd(rows, cmds.last()),
            seq![u] + cmds.drop_last(),
        ));
        assert(apply_stack_cursor(rows, ext, cur) == apply_stack_cursor(
            apply_cmd(rows, cmds.last()),
            seq![u] + cmds.drop_last(),
            cmd_cursor(rows, cmds.last()),
        ));
    }
}

/// Extending an inverse chain at the deep end.
pub proof fn lemma_redo_chain_extend(
    rows: Seq<Seq<char>>,
    undone: Seq<EditCommand>,
    pushed: Seq<EditCommand>,
    u: EditCommand,
    i: EditCommand,
)
    requires
        redo_chain_ok(rows, undone, pushed),
        inverse_ok(apply_stack(rows, undone), u, i),
    ensures
        redo_chain_ok(rows, seq![u] + undone, pushed.push(i)),
    decreases undone.len(),
{
    let ext = seq![u] + undone;
    assert(ext.len() == undone.len() + 1);
    if undone.len() == 0 {
        assert(ext.last() == u);
        assert(pushed.len() == 0);
        assert(pushed.push(i)[0] == i);
        assert(ext.drop_last() =~= Seq::<EditCommand>::empty());
        assert(pushed.push(i).drop_first() =~= Seq::<EditCommand>::empty());
        assert(apply_stack(rows, undone) == rows);
        assert(redo_chain_ok(
            apply_cmd(rows, u),
            Seq::<EditCommand>::empty(),
            Seq::<EditCommand>::empty(),
        ));
    } else {
        assert(ext.last() == undone.last());
        assert(ext.drop_last() =~= seq![u] + undone.drop_last());
        assert(pushed.push(i)[0] == pushed[0]);
        assert(pushed.push(i).drop_first() =~= pushed.drop_first().push(i));
        assert(apply_stack(rows, undone) == apply_stack(
            apply_cmd(rows, undone.last()),
            undone.drop_last(),
        ));
        lemma_redo_chain_extend(
            apply_cmd(rows, undone.last()),
            undone.drop_last(),
            pushed.drop_first(),
            u,
            i,
        );
    }
}

/// Pushing one more run length adds it to the sum.
pub proof fn lemma_sum_steps_push(steps: Seq<usize>, x: usize)
    ensures
        sum_steps(steps.push(x)) == sum_steps(steps) + x,
{
    assert(steps.push(x).drop_last() =~= steps);
}

/// The last run length never exceeds the sum of them all.
pub proof fn lemma_last_step_le_sum(steps: Seq<usize>)
    requires
        steps.len() > 0,
    ensures
        steps.last() <= sum_steps(steps),
    decreases steps.len(),
{
    lemma_sum_steps_nonneg(steps.drop_last());
}

/// A sum of run lengths is never negative.
pub proof fn lemma_sum_steps_nonneg(steps: Seq<usize>)
    ensures
        sum_steps(steps) >= 0,
    decreases steps.len(),
{
    if steps.len() > 0 {
        lemma_sum_steps_nonneg(steps.drop_last());
    }
}

/// The normalized change count: its magnitude, as the engine computes it at
/// the start of a fresh edit.
pub open spec fn norm_count(c: int) -> int {
    if c < 0 {
        if c == i32::MIN as int {
            i32::MAX as int
        } else {
            -c
        }
    } else {
        c
    }
}

/// One more unsaved change, saturating at the counter's ceiling.
pub open spec fn bump_count(c: int) -> int {
    if c < i32::MAX as int {
        c + 1
    } else {
        c
    }
}

/// One change undone, saturating at the counter's floor.
pub open spec fn drop_count(c: int) -> int {
    if c > i32::MIN as int {
        c - 1
    } else {
        c
    }
}

/// The undo stack after merging a freshly typed alphabetic character into
/// the run on top of the stack, or `None` where no merge applies. `new_rows`
/// is the buffer after the character was inserted.
pub open spec fn merge_result(
    new_rows: Seq<Seq<char>>,
    stack: Seq<EditCommand>,
    cmd: EditCommand,
) -> Option<Seq<EditCommand>> {
    match cmd {
        EditCommand::InsertChar { location, c } => {
            if !is_alpha(c) || stack.len() == 0 {
                Option::None
            } else {
                match stack.last() {
                    EditCommand::DeleteString { start, end } => {
                        if end == location {
                            Option::Some(
                                stack.update(
                                    stack.len() - 1,
                                    EditCommand::DeleteString {
                                        start,
                                        end: ((end.0 + 1) as usize, end.1),
                                    },
                                ),
                            )
                        } else {
                            Option::None
                        }
                    },
                    EditCommand::DeleteChar { location: dloc } => {
                        if dloc == location && dloc.0 > 0 && is_alpha(
                            get_char_spec(new_rows, dloc.0 as int, dloc.1 as int),
                        ) {
                            Option::Some(
                                stack.drop_last().push(
                                    EditCommand::DeleteString {
                                        start: ((dloc.0 - 1) as usize, dloc.1),
                                        end: ((dloc.0 + 1) as usize, dloc.1),
                                    },
                                ),
                            )
                        } else {
                            Option::None
                        }
                    },
                    _ => Option::None,
                }
            }
        },
        _ => Option::None,
    }
}


/// One pane's editing state: the buffer, the undo/redo stacks, the cursor,
/// the selection anchors and the wrap width.
pub struct FileEditComponent {
    /// The buffer being edited.
    pub filestate: FileState,
    /// The inverses of past edits, most recent last; managed by the engine.
    pub undo_commands: Vec<EditCommand>,
    /// Run lengths: how many undo commands form one user-visible step.
    pub undo_steps: Vec<usize>,
    /// The inverses of undone edits, most recent last; managed by the engine.
    pub redo_commands: Vec<EditCommand>,
    /// Run lengths of the redo stack.
    pub redo_steps: Vec<usize>,
    /// A saturating count of unsaved changes; negative means more undos than
    /// edits since the last save.
    pub change_count: i32,
    /// The first buffer row shown in the pane.
    pub rowoff: usize,
    /// The cursor, a `(column, row)` buffer position.
    pub cursor: (usize, usize),
    /// Whether a selection is active.
    pub text_selected: bool,
    /// The selection anchor recorded at pointer press.
    pub anchor_start: (usize, usize),
    /// The selection anchor recorded at the end of a pointer drag.
    pub anchor_end: (usize, usize),
    /// Whether long rows wrap onto further screen lines.
    pub text_wrap: bool,
    /// The pane's width, counting its border column.
    pub wrap_width: usize,
}

impl FileEditComponent {
    /// The buffer is well formed, every stacked command can be executed in
    /// order, the run lengths add up to the stack sizes, and the cursor is
    /// in bounds.
    pub open spec fn wf(&self) -> bool {
        &&& self.filestate.wf()
        &&& stack_valid(self.filestate@, self.undo_commands@)
        &&& stack_valid(self.filestate@, self.redo_commands@)
        &&& sum_steps(self.undo_steps@) == self.undo_commands@.len()
        &&& sum_steps(self.redo_steps@) == self.redo_commands@.len()
        &&& cursor_ok(self.filestate@, self.cursor.0 as int, self.cursor.1 as int)
    }

    /// Wraps a freshly opened buffer into a pane component with empty
    /// history, no selection and the cursor at the origin.
    pub fn new(fs: FileState) -> (r: FileEditComponent)
        requires
            fs.wf(),
        ensures
            r.wf(),
            r.filestate@ == fs@,
            r.filestate.spec_meta() == fs.spec_meta(),
            r.undo_commands@.len() == 0,
            r.undo_steps@.len() == 0,
            r.redo_commands@.len() == 0,
            r.redo_steps@.len() == 0,
            r.change_count == 0,
            r.rowoff == 0,
            r.cursor == (0usize, 0usize),
            !r.text_selected,
            r.anchor_start == (0usize, 0usize),
            r.anchor_end == (0usize, 0usize),
            r.text_wrap,
            r.wrap_width == 0,
    {
        FileEditComponent {
            filestate: fs,
            undo_commands: Vec::new(),
            undo_steps: Vec::new(),
            redo_commands: Vec::new(),
            redo_steps: Vec::new(),
            change_count: 0,
            rowoff: 0,
            cursor: (0, 0),
            text_selected: false,
            anchor_start: (0, 0),
            anchor_end: (0, 0),
            text_wrap: true,
            wrap_width: 0,
        }
    }

    /// Executes one edit command against the buffer, moves the cursor to the
    /// position the edit ends at, and returns the command's exact inverse.
    /// The history stacks are not touched: this is the raw execution step
    /// that `execute_command`, `execute_undo` and `execute_redo` build on.
    pub fn execute_edit_command(&mut self, cmd: &EditCommand) -> (inv: EditCommand)
        requires
            old(self).filestate.wf(),
            cmd_valid(old(self).filestate@, *cmd),
        ensures
            final(self).filestate.wf(),
            final(self).filestate@ == apply_cmd(old(self).filestate@, *cmd),
            final(self).filestate.spec_meta() == old(self).filestate.spec_meta(),
            inverse_ok(old(self).filestate@, *cmd, inv),
            (final(self).cursor.0 as int, final(self).cursor.1 as int) == cmd_cursor(
                old(self).filestate@,
                *cmd,
            ),
            final(self).undo_commands == old(self).undo_commands,
            final(self).undo_steps == old(self).undo_steps,
            final(self).redo_commands == old(self).redo_commands,
            final(self).redo_steps == old(self).redo_steps,
            final(self).change_count == old(self).change_count,
            final(self).rowoff == old(self).rowoff,
            final(self).text_selected == old(self).text_selected,
            final(self).anchor_start == old(self).anchor_start,
            final(self).anchor_end == old(self).anchor_end,
            final(self).text_wrap == old(self).text_wrap,
            final(self).wrap_width == old(self).wrap_width,
    {
        match cmd {
            EditCommand::InsertNewline { location } => {
                self.cursor = self.filestate.insert_newline(*location);
                EditCommand::DeleteChar { location: self.cursor }
            },
            EditCommand::InsertString { location, contents } => {
                self.cursor = self.filestate.insert_string(contents, *location);
                EditCommand::DeleteString { start: *location, end: self.cursor }
            },
            EditCommand::DeleteString { start, end } => {
                let selection = self.filestate.get_selection(*start, *end);
                self.cursor = self.filestate.delete_selection(*start, *end);
                EditCommand::InsertString { location: *start, contents: selection }
            },
            EditCommand::InsertChar { location, c } => {
                self.cursor = self.filestate.insert_char(*c, *location);
                EditCommand::DeleteChar { location: self.cursor }
            },
            EditCommand::DeleteChar { location } => {
                let chr: char = self.filestate.get_char(*location);
                self.cursor = self.filestate.delete_char(*location);
                if chr == '\n' {
                    EditCommand::InsertNewline { location: self.cursor }
                } else {
                    EditCommand::InsertChar { location: self.cursor, c: chr }
                }
            },
        }
    }

    /// Tries to absorb a freshly typed alphabetic character into the undo
    /// entry on top of the stack, so that a contiguous run of typed letters
    /// undoes as one step. `rows0` is the buffer the character was typed
    /// into; the buffer itself already holds the character.
    fn try_merge_char_cmd(
        &mut self,
        new_c: char,
        new_location: (usize, usize),
        Ghost(rows0): Ghost<Seq<Seq<char>>>,
    ) -> (merged: bool)
        requires
            old(self).filestate.wf(),
            lines_wf(rows0),
            cmd_valid(rows0, EditCommand::InsertChar { location: new_location, c: new_c }),
            old(self).filestate@ == apply_cmd(
                rows0,
                EditCommand::InsertChar { location: new_location, c: new_c },
            ),
            stack_valid(rows0, old(self).undo_commands@),
        ensures
            ({
                let res = merge_result(
                    old(self).filestate@,
                    old(self).undo_commands@,
                    EditCommand::InsertChar { location: new_location, c: new_c },
                );
                &&& merged == (res is Some)
                &&& merged ==> final(self).undo_commands@ == res->Some_0
                &&& !merged ==> final(self).undo_commands@ == old(self).undo_commands@
            }),
            merged ==> stack_valid(final(self).filestate@, final(self).undo_commands@),
            final(self).filestate == old(self).filestate,
            final(self).undo_steps == old(self).undo_steps,
            final(self).redo_commands == old(self).redo_commands,
            final(self).redo_steps == old(self).redo_steps,
            final(self).change_count == old(self).change_count,
            final(self).rowoff == old(self).rowoff,
            final(self).cursor == old(self).cursor,
            final(self).text_selected == old(self).text_selected,
            final(self).anchor_start == old(self).anchor_start,
            final(self).anchor_end == old(self).anchor_end,
            final(self).text_wrap == old(self).text_wrap,
            final(self).wrap_width == old(self).wrap_width,
    {
        let ghost cmd = EditCommand::InsertChar { location: new_location, c: new_c };
        let ghost rows1 = self.filestate@;
        if !char_is_alphabetic(new_c) {
            return false;
        }
        if self.undo_commands.len() == 0 {
            return false;
        }
        let n = self.undo_commands.len();
        let ghost stack0 = self.undo_commands@;
        let top = self.undo_commands.pop().unwrap();
        match top {
            // A run already merged into a range: extend the range by one.
            EditCommand::DeleteString { start, end } => {
                if end.0 != new_location.0 || end.1 != new_location.1 {
                    self.undo_commands.push(
                        EditCommand::DeleteString { start, end },
                    );
                    proof {
                        assert(self.undo_commands@ =~= stack0);
                    }
                    return false;
                }
                let row_len = self.filestate.row_len(end.1);
                proof {
                    assert(rows1 == insert_char_spec(
                        rows0,
                        new_location.0 as int,
                        new_location.1 as int,
                        new_c,
                    ));
                    assert(end.0 < row_len);
                }
                let merged_cmd = EditCommand::DeleteString { start, end: (end.0 + 1, end.1) };
                self.undo_commands.push(merged_cmd);
                proof {
                    let ghost mtop = EditCommand::DeleteString {
                        start,
                        end: ((end.0 + 1) as usize, end.1),
                    };
                    assert(self.undo_commands@ =~= stack0.update(stack0.len() - 1, mtop));
                    // The widened range deletes the old range plus the fresh
                    // character: undoing it steps over both at once.
                    assert(cmd_valid(rows0, top));
                    assert(cmd_valid(rows1, mtop));
                    assert(apply_cmd(rows1, mtop) =~~= apply_cmd(rows0, top));
                    assert(self.undo_commands@.last() == mtop);
                    assert(self.undo_commands@.drop_last() =~= stack0.drop_last());
                    assert(stack0.last() == top);
                    assert(stack_valid(apply_cmd(rows0, top), stack0.drop_last()));
                    assert(stack_valid(rows1, self.undo_commands@));
                }
                true
            },
            // A single deleted character: fuse the two characters into a range.
            EditCommand::DeleteChar { location } => {
                if location.0 == 0 {
                    self.undo_commands.push(EditCommand::DeleteChar { location });
                    proof {
                        assert(self.undo_commands@ =~= stack0);
                    }
                    return false;
                }
                let c = self.filestate.get_char(location);
                if !char_is_alphabetic(c) {
                    self.undo_commands.push(EditCommand::DeleteChar { location });
                    proof {
                        assert(self.undo_commands@ =~= stack0);
                    }
                    return false;
                }
                if location.0 != new_location.0 || location.1 != new_location.1 {
                    self.undo_commands.push(EditCommand::DeleteChar { location });
                    proof {
                        assert(self.undo_commands@ =~= stack0);
                    }
                    return false;
                }
                proof {
                    assert(rows1 == insert_char_spec(
                        rows0,
                        new_location.0 as int,
                        new_location.1 as int,
                        new_c,
                    ));
                    assert(cmd_valid(rows0, top));
                    assert(location.0 < rows1[location.1 as int].len());
                }
                let cur_row_len = self.filestate.row_len(location.1);
                proof {
                    assert(location.0 < cur_row_len);
                }
                let merged_cmd = EditCommand::DeleteString {
                    start: (location.0 - 1, location.1),
                    end: (location.0 + 1, location.1),
                };
                self.undo_commands.push(merged_cmd);
                proof {
                    let ghost mtop = EditCommand::DeleteString {
                        start: ((location.0 - 1) as usize, location.1),
                        end: ((location.0 + 1) as usize, location.1),
                    };
                    assert(self.undo_commands@ =~= stack0.drop_last().push(mtop));
                    // Deleting both characters at once undoes the fused pair.
                    assert(cmd_valid(rows1, mtop));
                    assert(apply_cmd(rows1, mtop) =~~= apply_cmd(rows0, top));
                    assert(self.undo_commands@.last() == mtop);
                    assert(self.undo_commands@.drop_last() =~= stack0.drop_last());
                    assert(stack0.last() == top);
                    assert(stack_valid(apply_cmd(rows0, top), stack0.drop_last()));
                    assert(stack_valid(rows1, self.undo_commands@));
                }
                true
            },
            other => {
                self.undo_commands.push(other);
                proof {
                    assert(self.undo_commands@ =~= stack0);
                }
                false
            },
        }
    }

    /// Executes one user edit: normalizes the change count, runs the
    /// command, clears the redo history, and either merges the edit into the
    /// undo entry on top of the stack (a run of typed letters) or pushes its
    /// inverse as a fresh one-step entry.
    pub fn execute_command(&mut self, cmd: &EditCommand)
        requires
            old(self).wf(),
            cmd_valid(old(self).filestate@, *cmd),
        ensures
            final(self).wf(),
            final(self).filestate@ == apply_cmd(old(self).filestate@, *cmd),
            final(self).filestate.spec_meta() == old(self).filestate.spec_meta(),
            (final(self).cursor.0 as int, final(self).cursor.1 as int) == cmd_cursor(
                old(self).filestate@,
                *cmd,
            ),
            final(self).redo_commands@.len() == 0,
            final(self).redo_steps@.len() == 0,
            final(self).change_count == bump_count(norm_count(old(self).change_count as int)),
            ({
                let res = merge_result(
                    apply_cmd(old(self).filestate@, *cmd),
                    old(self).undo_commands@,
                    *cmd,
                );
                match res {
                    Option::Some(s) => {
                        &&& final(self).undo_commands@ == s
                        &&& final(self).undo_steps@ == old(self).undo_steps@
                    },
                    Option::None => {
                        &&& final(self).undo_commands@.len() == old(self).undo_commands@.len() + 1
                        &&& final(self).undo_commands@.drop_last() == old(self).undo_commands@
                        &&& inverse_ok(
                            old(self).filestate@,
                            *cmd,
                            final(self).undo_commands@.last(),
                        )
                        &&& final(self).undo_steps@ == old(self).undo_steps@.push(1)
                    },
                }
            }),
            final(self).rowoff == old(self).rowoff,
            final(self).text_selected == old(self).text_selected,
            final(self).anchor_start == old(self).anchor_start,
            final(self).anchor_end == old(self).anchor_end,
            final(self).text_wrap == old(self).text_wrap,
            final(self).wrap_width == old(self).wrap_width,
    {
        // After a change, unsaved undos count positively.
        if self.change_count < 0 {
            if self.change_count == i32::MIN {
                self.change_count = i32::MAX;
            } else {
                self.change_count = -self.change_count;
            }
        }

        let ghost rows0 = self.filestate@;
        let undo_cmd = self.execute_edit_command(cmd);
        self.redo_commands.clear();
        self.redo_steps.clear();

        // Attempt to merge this command with the entry on top of the undo
        // stack, and push a fresh one-step entry if no merge applies.
        let mut merged = false;
        if let EditCommand::InsertChar { location, c } = cmd {
            merged = self.try_merge_char_cmd(*c, *location, Ghost(rows0));
        }
        if !merged {
            proof {
                lemma_command_inverse(rows0, *cmd, undo_cmd);
                lemma_sum_steps_push(self.undo_steps@, 1);
            }
            self.undo_commands.push(undo_cmd);
            self.undo_steps.push(1);
            proof {
                assert(self.undo_commands@.drop_last() =~= old(self).undo_commands@);
            }
        }

        if self.change_count < i32::MAX {
            self.change_count = self.change_count + 1;
        }
    }

    /// Undoes one user-visible step: pops one run length and executes that
    /// many commands off the undo stack, most recent first, collecting their
    /// inverses onto the redo stack as one run. Does nothing if there is no
    /// step to undo.
    pub fn execute_undo(&mut self)
        requires
            old(self).wf(),
        ensures
            final(self).wf(),
            final(self).filestate.spec_meta() == old(self).filestate.spec_meta(),
            old(self).undo_steps@.len() == 0 ==> final(self).filestate == old(self).filestate
                && final(self).undo_commands == old(self).undo_commands
                && final(self).undo_steps@ == old(self).undo_steps@
                && final(self).redo_commands == old(self).redo_commands
                && final(self).redo_steps == old(self).redo_steps
                && final(self).change_count == old(self).change_count
                && final(self).cursor == old(self).cursor
                && final(self).rowoff == old(self).rowoff
                && final(self).text_selected == old(self).text_selected
                && final(self).anchor_start == old(self).anchor_start
                && final(self).anchor_end == old(self).anchor_end
                && final(self).text_wrap == old(self).text_wrap
                && final(self).wrap_width == old(self).wrap_width,
            old(self).undo_steps@.len() > 0 ==> ({
                let n = old(self).undo_steps@.last() as int;
                let len0 = old(self).undo_commands@.len() as int;
                let popped = old(self).undo_commands@.skip(len0 - n);
                &&& n <= len0
                &&& final(self).undo_steps@ == old(self).undo_steps@.drop_last()
                &&& final(self).undo_commands@ == old(self).undo_commands@.take(len0 - n)
                &&& final(self).filestate@ == apply_stack(old(self).filestate@, popped)
                &&& (final(self).cursor.0 as int, final(self).cursor.1 as int)
                    == apply_stack_cursor(
                    old(self).filestate@,
                    popped,
                    (old(self).cursor.0 as int, old(self).cursor.1 as int),
                )
                &&& final(self).redo_steps@ == old(self).redo_steps@.push(
                    old(self).undo_steps@.last(),
                )
                &&& final(self).redo_commands@.take(old(self).redo_commands@.len() as int)
                    == old(self).redo_commands@
                &&& redo_chain_ok(
                    old(self).filestate@,
                    popped,
                    final(self).redo_commands@.skip(old(self).redo_commands@.len() as int),
                )
                &&& final(self).change_count == drop_count(old(self).change_count as int)
                &&& final(self).rowoff == old(self).rowoff
                &&& final(self).text_selected == old(self).text_selected
                &&& final(self).anchor_start == old(self).anchor_start
                &&& final(self).anchor_end == old(self).anchor_end
                &&& final(self).text_wrap == old(self).text_wrap
                &&& final(self).wrap_width == old(self).wrap_width
            }),
    {
        let popped_step = self.undo_steps.pop();
        match popped_step {
            Option::None => {
            },
            Option::Some(len) => {
                let ghost rows_start = self.filestate@;
                let ghost undo0 = self.undo_commands@;
                let ghost redo0 = self.redo_commands@;
                let ghost cur0 = (old(self).cursor.0 as int, old(self).cursor.1 as int);
                let ghost len0 = undo0.len() as int;
                proof {
                    lemma_last_step_le_sum(old(self).undo_steps@);
                    assert(sum_steps(old(self).undo_steps@.drop_last()) == sum_steps(
                        old(self).undo_steps@,
                    ) - len);
                    lemma_sum_steps_nonneg(old(self).undo_steps@.drop_last());
                    assert(len <= len0);
                    assert(undo0.skip(len0 - 0) =~= Seq::<EditCommand>::empty());
                    assert(redo0.skip(redo0.len() as int) =~= Seq::<EditCommand>::empty());
                }
                let mut k: usize = 0;
                while k < len
                    invariant
                        k <= len,
                        len <= len0,
                        len0 == undo0.len(),
                        self.filestate.wf(),
                        self.filestate.spec_meta() == old(self).filestate.spec_meta(),
                        lines_wf(rows_start),
                        stack_valid(rows_start, undo0),
                        stack_valid(rows_start, redo0),
                        self.undo_commands@ == undo0.take(len0 - k),
                        self.filestate@ == apply_stack(rows_start, undo0.skip(len0 - k)),
                        (self.cursor.0 as int, self.cursor.1 as int) == apply_stack_cursor(
                            rows_start,
                            undo0.skip(len0 - k),
                            cur0,
                        ),
                        stack_valid(self.filestate@, self.undo_commands@),
                        stack_valid(self.filestate@, self.redo_commands@),
                        self.redo_commands@.len() == redo0.len() + k,
                        self.redo_commands@.take(redo0.len() as int) == redo0,
                        redo_chain_ok(
                            rows_start,
                            undo0.skip(len0 - k),
                            self.redo_commands@.skip(redo0.len() as int),
                        ),
                        cursor_ok(self.filestate@, self.cursor.0 as int, self.cursor.1 as int),
                        self.undo_steps@ == old(self).undo_steps@.drop_last(),
                        self.redo_steps == old(self).redo_steps,
                        self.change_count == old(self).change_count,
                        self.rowoff == old(self).rowoff,
                        self.text_selected == old(self).text_selected,
                        self.anchor_start == old(self).anchor_start,
                        self.anchor_end == old(self).anchor_end,
                        self.text_wrap == old(self).text_wrap,
                        self.wrap_width == old(self).wrap_width,
                    decreases len - k,
                {
                    let ghost rows_k = self.filestate@;
                    let ghost popped_k = undo0.skip(len0 - k);
                    let cmd = self.undo_commands.pop().unwrap();
                    proof {
                        assert(undo0.take(len0 - k).last() == undo0[len0 - k - 1]);
                        assert(undo0.take(len0 - k).drop_last() =~= undo0.take(len0 - (k + 1)));
                        assert(cmd_valid(rows_k, cmd));
                    }
                    let ghost redo_prev = self.redo_commands@;
                    let ghost pushed_k = redo_prev.skip(redo0.len() as int);
                    let redo_cmd = self.execute_edit_command(&cmd);
                    proof {
                        lemma_command_inverse(rows_k, cmd, redo_cmd);
                        assert(seq![cmd] + popped_k =~= undo0.skip(len0 - (k + 1)));
                        lemma_apply_stack_prepend(rows_start, popped_k, cmd, cur0);
                        lemma_redo_chain_extend(rows_start, popped_k, pushed_k, cmd, redo_cmd);
                    }
                    self.redo_commands.push(redo_cmd);
                    proof {
                        assert(self.redo_commands@.take(redo0.len() as int) =~= redo0);
                        assert(self.redo_commands@.skip(redo0.len() as int) =~= pushed_k.push(
                            redo_cmd,
                        ));
                        assert(self.redo_commands@.last() == redo_cmd);
                        assert(self.redo_commands@.drop_last() =~= redo_prev);
                        assert(apply_cmd(self.filestate@, redo_cmd) == rows_k);
                        assert(stack_valid(self.filestate@, self.redo_commands@));
                    }
                    k = k + 1;
                }
                proof {
                    lemma_sum_steps_push(self.redo_steps@, len);
                }
                self.redo_steps.push(len);

                if self.change_count > i32::MIN {
                    self.change_count = self.change_count - 1;
                }
            },
        }
    }

    /// Redoes one user-visible step: pops one run length and executes that
    /// many commands off the redo stack, most recent first, collecting their
    /// inverses onto the undo stack as one run. Does nothing if there is no
    /// step to redo.
    pub fn execute_redo(&mut self)
        requires
            old(self).wf(),
        ensures
            final(self).wf(),
            final(self).filestate.spec_meta() == old(self).filestate.spec_meta(),
            old(self).redo_steps@.len() == 0 ==> final(self).filestate == old(self).filestate
                && final(self).undo_commands == old(self).undo_commands
                && final(self).undo_steps == old(self).undo_steps
                && final(self).redo_commands == old(self).redo_commands
                && final(self).redo_steps@ == old(self).redo_steps@
                && final(self).change_count == old(self).change_count
                && final(self).cursor == old(self).cursor
                && final(self).rowoff == old(self).rowoff
                && final(self).text_selected == old(self).text_selected
                && final(self).anchor_start == old(self).anchor_start
                && final(self).anchor_end == old(self).anchor_end
                && final(self).text_wrap == old(self).text_wrap
                && final(self).wrap_width == old(self).wrap_width,
            old(self).redo_steps@.len() > 0 ==> ({
                let n = old(self).redo_steps@.last() as int;
                let len0 = old(self).redo_commands@.len() as int;
                let popped = old(self).redo_commands@.skip(len0 - n);
                &&& n <= len0
                &&& final(self).redo_steps@ == old(self).redo_steps@.drop_last()
                &&& final(self).redo_commands@ == old(self).redo_commands@.take(len0 - n)
                &&& final(self).filestate@ == apply_stack(old(self).filestate@, popped)
                &&& (final(self).cursor.0 as int, final(self).cursor.1 as int)
                    == apply_stack_cursor(
                    old(self).filestate@,
                    popped,
                    (old(self).cursor.0 as int, old(self).cursor.1 as int),
                )
                &&& final(self).undo_steps@ == old(self).undo_steps@.push(
                    old(self).redo_steps@.last(),
                )
                &&& final(self).undo_commands@.take(old(self).undo_commands@.len() as int)
                    == old(self).undo_commands@
                &&& redo_chain_ok(
                    old(self).filestate@,
                    popped,
                    final(self).undo_commands@.skip(old(self).undo_commands@.len() as int),
                )
                &&& final(self).change_count == bump_count(old(self).change_count as int)
                &&& final(self).rowoff == old(self).rowoff
                &&& final(self).text_selected == old(self).text_selected
                &&& final(self).anchor_start == old(self).anchor_start
                &&& final(self).anchor_end == old(self).anchor_end
                &&& final(self).text_wrap == old(self).text_wrap
                &&& final(self).wrap_width == old(self).wrap_width
            }),
    {
        let popped_step = self.redo_steps.pop();
        match popped_step {
            Option::None => {
            },
            Option::Some(len) => {
                let ghost rows_start = self.filestate@;
                let ghost redo0 = self.redo_commands@;
                let ghost undo0 = self.undo_commands@;
                let ghost cur0 = (old(self).cursor.0 as int, old(self).cursor.1 as int);
                let ghost len0 = redo0.len() as int;
                proof {
                    lemma_last_step_le_sum(old(self).redo_steps@);
                    assert(sum_steps(old(self).redo_steps@.drop_last()) == sum_steps(
                        old(self).redo_steps@,
                    ) - len);
                    lemma_sum_steps_nonneg(old(self).redo_steps@.drop_last());
                    assert(len <= len0);
                    assert(redo0.skip(len0 - 0) =~= Seq::<EditCommand>::empty());
                    assert(undo0.skip(undo0.len() as int) =~= Seq::<EditCommand>::empty());
                }
                let mut k: usize = 0;
                while k < len
                    invariant
                        k <= len,
                        len <= len0,
                        len0 == redo0.len(),
                        self.filestate.wf(),
                        self.filestate.spec_meta() == old(self).filestate.spec_meta(),
                        lines_wf(rows_start),
                        stack_valid(rows_start, redo0),
                        stack_valid(rows_start, undo0),
                        self.redo_commands@ == redo0.take(len0 - k),
                        self.filestate@ == apply_stack(rows_start, redo0.skip(len0 - k)),
                        (self.cursor.0 as int, self.cursor.1 as int) == apply_stack_cursor(
                            rows_start,
                            redo0.skip(len0 - k),
                            cur0,
                        ),
                        stack_valid(self.filestate@, self.redo_commands@),
                        stack_valid(self.filestate@, self.undo_commands@),
                        self.undo_commands@.len() == undo0.len() + k,
                        self.undo_commands@.take(undo0.len() as int) == undo0,
                        redo_chain_ok(
                            rows_start,
                            redo0.skip(len0 - k),
                            self.undo_commands@.skip(undo0.len() as int),
                        ),
                        cursor_ok(self.filestate@, self.cursor.0 as int, self.cursor.1 as int),
                        self.redo_steps@ == old(self).redo_steps@.drop_last(),
                        self.undo_steps == old(self).undo_steps,
                        self.change_count == old(self).change_count,
                        self.rowoff == old(self).rowoff,
                        self.text_selected == old(self).text_selected,
                        self.anchor_start == old(self).anchor_start,
                        self.anchor_end == old(self).anchor_end,
                        self.text_wrap == old(self).text_wrap,
                        self.wrap_width == old(self).wrap_width,
                    decreases len - k,
                {
                    let ghost rows_k = self.filestate@;
                    let ghost popped_k = redo0.skip(len0 - k);
                    let cmd = self.redo_commands.pop().unwrap();
                    proof {
                        assert(redo0.take(len0 - k).last() == redo0[len0 - k - 1]);
                        assert(redo0.take(len0 - k).drop_last() =~= redo0.take(len0 - (k + 1)));
                        assert(cmd_valid(rows_k, cmd));
                    }
                    let ghost undo_prev = self.undo_commands@;
                    let ghost pushed_k = undo_prev.skip(undo0.len() as int);
                    let undo_cmd = self.execute_edit_command(&cmd);
                    proof {
                        lemma_command_inverse(rows_k, cmd, undo_cmd);
                        assert(seq![cmd] + popped_k =~= redo0.skip(len0 - (k + 1)));
                        lemma_apply_stack_prepend(rows_start, popped_k, cmd, cur0);
                        lemma_redo_chain_extend(rows_start, popped_k, pushed_k, cmd, undo_cmd);
                    }
                    self.undo_commands.push(undo_cmd);
                    proof {
                        assert(self.undo_commands@.take(undo0.len() as int) =~= undo0);
                        assert(self.undo_commands@.skip(undo0.len() as int) =~= pushed_k.push(
                            undo_cmd,
                        ));
                        assert(self.undo_commands@.last() == undo_cmd);
                        assert(self.undo_commands@.drop_last() =~= undo_prev);
                        assert(apply_cmd(self.filestate@, undo_cmd) == rows_k);
                        assert(stack_valid(self.filestate@, self.undo_commands@));
                    }
                    k = k + 1;
                }
                proof {
                    lemma_sum_steps_push(self.undo_steps@, len);
                }
                self.undo_steps.push(len);

                if self.change_count < i32::MAX {
                    self.change_count = self.change_count + 1;
                }
            },
        }
    }

    /// Marks the buffer as saved: clears the unsaved-change count.
    pub fn reset_change_count(&mut self)
        ensures
            final(self).change_count == 0,
            final(self).filestate == old(self).filestate,
            final(self).undo_commands == old(self).undo_commands,
            final(self).undo_steps == old(self).undo_steps,
            final(self).redo_commands == old(self).redo_commands,
            final(self).redo_steps == old(self).redo_steps,
            final(self).cursor == old(self).cursor,
            final(self).wf() == old(self).wf(),
    {
        self.change_count = 0;
    }


    /// Moves the cursor one row up, clamping the column to the new row, and
    /// clears the selection.
    pub fn move_cursor_up(&mut self)
        requires
            old(self).wf(),
        ensures
            final(self).wf(),
            final(self).filestate == old(self).filestate,
            !final(self).text_selected,
            final(self).cursor.1 == if old(self).cursor.1 > 0 {
                old(self).cursor.1 - 1
            } else {
                0int
            },
            final(self).cursor.0 == ({
                let rowlen = if final(self).cursor.1 < old(self).filestate@.len() {
                    old(self).filestate@[final(self).cursor.1 as int].len() as int
                } else {
                    0int
                };
                if old(self).cursor.0 > rowlen {
                    rowlen
                } else {
                    old(self).cursor.0 as int
                }
            }),
            final(self).undo_commands == old(self).undo_commands,
            final(self).undo_steps == old(self).undo_steps,
            final(self).redo_commands == old(self).redo_commands,
            final(self).redo_steps == old(self).redo_steps,
            final(self).change_count == old(self).change_count,
            final(self).wrap_width == old(self).wrap_width,
            final(self).rowoff == old(self).rowoff,
    {
        self.text_selected = false;
        if self.cursor.1 > 0 {
            self.cursor.1 = self.cursor.1 - 1;
        }
        let rowlen = self.filestate.row_len(self.cursor.1);
        if self.cursor.0 > rowlen {
            self.cursor.0 = rowlen;
        }
    }

    /// Moves the cursor one row down, to column zero just past the last row,
    /// clamping the column otherwise, and clears the selection.
    pub fn move_cursor_down(&mut self)
        requires
            old(self).wf(),
        ensures
            final(self).wf(),
            final(self).filestate == old(self).filestate,
            !final(self).text_selected,
            final(self).cursor.1 == if old(self).cursor.1 < old(self).filestate@.len() {
                old(self).cursor.1 + 1
            } else {
                old(self).cursor.1 as int
            },
            final(self).cursor.0 == ({
                if final(self).cursor.1 == old(self).filestate@.len() {
                    0int
                } else {
                    let rowlen = old(self).filestate@[final(self).cursor.1 as int].len() as int;
                    if old(self).cursor.0 > rowlen {
                        rowlen
                    } else {
                        old(self).cursor.0 as int
                    }
                }
            }),
            final(self).undo_commands == old(self).undo_commands,
            final(self).undo_steps == old(self).undo_steps,
            final(self).redo_commands == old(self).redo_commands,
            final(self).redo_steps == old(self).redo_steps,
            final(self).change_count == old(self).change_count,
            final(self).wrap_width == old(self).wrap_width,
            final(self).rowoff == old(self).rowoff,
    {
        self.text_selected = false;
        let num_rows = self.filestate.num_rows();
        if self.cursor.1 < num_rows {
            self.cursor.1 = self.cursor.1 + 1;
        }
        let rowlen = self.filestate.row_len(self.cursor.1);
        if self.cursor.1 == num_rows {
            self.cursor.0 = 0;
        } else if self.cursor.0 > rowlen {
            self.cursor.0 = rowlen;
        }
    }

    /// Moves the cursor one column left, wrapping to the end of the previous
    /// row at a row start, and clears the selection.
    pub fn move_cursor_left(&mut self)
        requires
            old(self).wf(),
        ensures
            final(self).wf(),
            final(self).filestate == old(self).filestate,
            !final(self).text_selected,
            old(self).cursor.0 != 0 ==> final(self).cursor == ((old(self).cursor.0 - 1) as usize,
                old(self).cursor.1,
            ),
            old(self).cursor.0 == 0 && old(self).cursor.1 > 0 ==> final(self).cursor.1 == old(
                self,
            ).cursor.1 - 1 && final(self).cursor.0 == old(self).filestate@[old(self).cursor.1 - 1].len(),
            old(self).cursor.0 == 0 && old(self).cursor.1 == 0 ==> final(self).cursor == old(
                self,
            ).cursor,
            final(self).undo_commands == old(self).undo_commands,
            final(self).undo_steps == old(self).undo_steps,
            final(self).redo_commands == old(self).redo_commands,
            final(self).redo_steps == old(self).redo_steps,
            final(self).change_count == old(self).change_count,
            final(self).wrap_width == old(self).wrap_width,
            final(self).rowoff == old(self).rowoff,
    {
        self.text_selected = false;
        if self.cursor.0 != 0 {
            self.cursor.0 = self.cursor.0 - 1;
        } else if self.cursor.1 > 0 {
            self.cursor.1 = self.cursor.1 - 1;
            self.cursor.0 = self.filestate.row_len(self.cursor.1);
        }
    }

    /// Moves the cursor one column right, wrapping to the start of the next
    /// row at a row end, and clears the selection.
    pub fn move_cursor_right(&mut self)
        requires
            old(self).wf(),
        ensures
            final(self).wf(),
            final(self).filestate == old(self).filestate,
            !final(self).text_selected,
            ({
                let rows = old(self).filestate@;
                let cur = old(self).cursor;
                if cur.1 < rows.len() && cur.0 < rows[cur.1 as int].len() {
                    final(self).cursor.0 == cur.0 + 1 && final(self).cursor.1 == cur.1
                } else if cur.1 < rows.len() && cur.0 == rows[cur.1 as int].len() {
                    final(self).cursor.0 == 0 && final(self).cursor.1 == cur.1 + 1
                } else {
                    final(self).cursor == cur
                }
            }),
            final(self).undo_commands == old(self).undo_commands,
            final(self).undo_steps == old(self).undo_steps,
            final(self).redo_commands == old(self).redo_commands,
            final(self).redo_steps == old(self).redo_steps,
            final(self).change_count == old(self).change_count,
            final(self).wrap_width == old(self).wrap_width,
            final(self).rowoff == old(self).rowoff,
    {
        self.text_selected = false;
        let num_rows = self.filestate.num_rows();
        let rowlen = self.filestate.row_len(self.cursor.1);
        if self.cursor.1 < num_rows && self.cursor.0 < rowlen {
            self.cursor.0 = self.cursor.0 + 1;
        } else if self.cursor.1 < num_rows && self.cursor.0 == rowlen {
            self.cursor.1 = self.cursor.1 + 1;
            self.cursor.0 = 0;
        }
    }

    /// Moves the cursor to the end of its row.
    pub fn goto_line_end(&mut self)
        requires
            old(self).wf(),
        ensures
            final(self).wf(),
            final(self).filestate == old(self).filestate,
            final(self).text_selected == old(self).text_selected,
            final(self).cursor.1 == old(self).cursor.1,
            final(self).cursor.0 == if old(self).cursor.1 < old(self).filestate@.len() {
                old(self).filestate@[old(self).cursor.1 as int].len() as int
            } else {
                0int
            },
            final(self).undo_commands == old(self).undo_commands,
            final(self).undo_steps == old(self).undo_steps,
            final(self).redo_commands == old(self).redo_commands,
            final(self).redo_steps == old(self).redo_steps,
            final(self).change_count == old(self).change_count,
            final(self).wrap_width == old(self).wrap_width,
            final(self).rowoff == old(self).rowoff,
    {
        let len = self.filestate.row_len(self.cursor.1);
        self.cursor.0 = len;
    }

    /// Moves the cursor to the start of its row.
    pub fn goto_line_start(&mut self)
        requires
            old(self).wf(),
        ensures
            final(self).wf(),
            final(self).filestate == old(self).filestate,
            final(self).text_selected == old(self).text_selected,
            final(self).cursor.0 == 0 && final(self).cursor.1 == old(self).cursor.1,
            final(self).undo_commands == old(self).undo_commands,
            final(self).undo_steps == old(self).undo_steps,
            final(self).redo_commands == old(self).redo_commands,
            final(self).redo_steps == old(self).redo_steps,
            final(self).change_count == old(self).change_count,
            final(self).wrap_width == old(self).wrap_width,
            final(self).rowoff == old(self).rowoff,
    {
        self.cursor.0 = 0;
    }


    /// The selection anchors in row-major order; what `get_anchors` returns.
    pub open spec fn spec_anchors(&self) -> ((usize, usize), (usize, usize)) {
        if self.anchor_end.1 < self.anchor_start.1 || (self.anchor_start.1 == self.anchor_end.1
            && self.anchor_start.0 > self.anchor_end.0) {
            (self.anchor_end, self.anchor_start)
        } else {
            (self.anchor_start, self.anchor_end)
        }
    }

    /// The normalized selection range denotes a deletable range of the
    /// buffer.
    pub open spec fn spec_selection_valid(&self) -> bool {
        cmd_valid(
            self.filestate@,
            EditCommand::DeleteString {
                start: self.spec_anchors().0,
                end: self.spec_anchors().1,
            },
        )
    }

    /// Deletes the active selection as one undoable edit, or the character
    /// before the cursor; at the very start of the buffer, or past its end,
    /// only the cursor and the selection flag change. A selection whose
    /// anchors no longer denote a range of the buffer is dropped without an
    /// edit.
    pub fn delete(&mut self)
        requires
            old(self).wf(),
        ensures
            final(self).wf(),
            !final(self).text_selected,
            final(self).filestate.spec_meta() == old(self).filestate.spec_meta(),
            final(self).wrap_width == old(self).wrap_width,
            final(self).rowoff == old(self).rowoff,
            ({
                let rows = old(self).filestate@;
                let s = old(self).spec_anchors().0;
                let e = old(self).spec_anchors().1;
                let ds = EditCommand::DeleteString { start: s, end: e };
                let dc = EditCommand::DeleteChar { location: old(self).cursor };
                if old(self).text_selected {
                    if old(self).spec_selection_valid() {
                        &&& final(self).filestate@ == apply_cmd(rows, ds)
                        &&& final(self).cursor == s
                        &&& final(self).redo_commands@.len() == 0
                        &&& final(self).redo_steps@.len() == 0
                        &&& final(self).undo_commands@.len() == old(self).undo_commands@.len() + 1
                        &&& final(self).undo_commands@.drop_last() == old(self).undo_commands@
                        &&& inverse_ok(rows, ds, final(self).undo_commands@.last())
                        &&& final(self).undo_steps@ == old(self).undo_steps@.push(1)
                        &&& final(self).change_count == bump_count(
                            norm_count(old(self).change_count as int),
                        )
                    } else {
                        &&& final(self).filestate == old(self).filestate
                        &&& final(self).cursor == old(self).cursor
                        &&& final(self).undo_commands == old(self).undo_commands
                        &&& final(self).undo_steps == old(self).undo_steps
                        &&& final(self).redo_commands == old(self).redo_commands
                        &&& final(self).redo_steps == old(self).redo_steps
                        &&& final(self).change_count == old(self).change_count
                    }
                } else if old(self).cursor.1 >= rows.len() {
                    &&& final(self).filestate == old(self).filestate
                    &&& final(self).cursor.1 == if old(self).cursor.1 > 0 {
                        old(self).cursor.1 - 1
                    } else {
                        0int
                    }
                    &&& final(self).cursor.0 == if old(self).cursor.1 > 0 {
                        row_len_at(rows, old(self).cursor.1 - 1)
                    } else {
                        0int
                    }
                    &&& final(self).undo_commands == old(self).undo_commands
                    &&& final(self).undo_steps == old(self).undo_steps
                    &&& final(self).redo_commands == old(self).redo_commands
                    &&& final(self).redo_steps == old(self).redo_steps
                    &&& final(self).change_count == old(self).change_count
                } else if old(self).cursor.0 == 0 && old(self).cursor.1 == 0 {
                    // Deleting at the buffer start is a no-op by design.
                    &&& final(self).filestate == old(self).filestate
                    &&& final(self).cursor == old(self).cursor
                    &&& final(self).undo_commands == old(self).undo_commands
                    &&& final(self).undo_steps == old(self).undo_steps
                    &&& final(self).redo_commands == old(self).redo_commands
                    &&& final(self).redo_steps == old(self).redo_steps
                    &&& final(self).change_count == old(self).change_count
                } else {
                    &&& final(self).filestate@ == apply_cmd(rows, dc)
                    &&& (final(self).cursor.0 as int, final(self).cursor.1 as int) == cmd_cursor(
                        rows,
                        dc,
                    )
                    &&& final(self).redo_commands@.len() == 0
                    &&& final(self).redo_steps@.len() == 0
                    &&& final(self).undo_commands@.len() == old(self).undo_commands@.len() + 1
                    &&& final(self).undo_commands@.drop_last() == old(self).undo_commands@
                    &&& inverse_ok(rows, dc, final(self).undo_commands@.last())
                    &&& final(self).undo_steps@ == old(self).undo_steps@.push(1)
                    &&& final(self).change_count == bump_count(
                        norm_count(old(self).change_count as int),
                    )
                }
            }),
    {
        if self.text_selected {
            let (anchor_start, anchor_end) = self.get_anchors();
            let num_rows = self.filestate.num_rows();
            let s_len = self.filestate.row_len(anchor_start.1);
            let e_len = self.filestate.row_len(anchor_end.1);
            if anchor_end.1 < num_rows && anchor_start.0 <= s_len && anchor_end.0 <= e_len {
                self.execute_command(
                    &EditCommand::DeleteString { start: anchor_start, end: anchor_end },
                );
            }
        } else {
            let num_rows = self.filestate.num_rows();
            // Past the end of the buffer only the cursor moves.
            if self.cursor.1 >= num_rows {
                let rowlen = if self.cursor.1 > 0 {
                    self.filestate.row_len(self.cursor.1 - 1)
                } else {
                    0
                };
                if self.cursor.1 > 0 {
                    self.cursor.1 = self.cursor.1 - 1;
                }
                self.cursor.0 = rowlen;
                self.text_selected = false;
                return ;
            }
            if self.cursor.0 == 0 && self.cursor.1 == 0 {
                self.text_selected = false;
                return ;
            }
            self.execute_command(&EditCommand::DeleteChar { location: self.cursor });
        }
        self.text_selected = false;
    }

    /// Types one character: deletes the active selection first, appends an
    /// empty row if the cursor sits just past the last one, then inserts the
    /// character as an undoable edit (merging runs of letters into one undo
    /// step). A selection whose anchors no longer denote a range of the
    /// buffer is dropped without an edit.
    pub fn insert_char(&mut self, c: char)
        requires
            old(self).wf(),
            c != '\n',
        ensures
            final(self).wf(),
            insert_char_effect(*old(self), *final(self), c),
    {
        let ghost rows = self.filestate@;
        let ghost s = self.spec_anchors().0;
        let ghost e = self.spec_anchors().1;
        let ghost ds = EditCommand::DeleteString { start: s, end: e };
        let ghost undo0 = self.undo_commands@;
        let ghost steps0 = self.undo_steps@;
        let ghost count0 = self.change_count;
        let ghost sel = self.text_selected && self.spec_selection_valid();
        if self.text_selected {
            let (anchor_start, anchor_end) = self.get_anchors();
            let num_rows = self.filestate.num_rows();
            let s_len = self.filestate.row_len(anchor_start.1);
            let e_len = self.filestate.row_len(anchor_end.1);
            if anchor_end.1 < num_rows && anchor_start.0 <= s_len && anchor_end.0 <= e_len {
                proof {
                    assert(sel);
                }
                self.execute_command(
                    &EditCommand::DeleteString { start: anchor_start, end: anchor_end },
                );
                self.cursor = anchor_start;
            } else {
                proof {
                    assert(!sel);
                }
            }
            self.text_selected = false;
        }
        let ghost undo1 = self.undo_commands@;
        let num_rows = self.filestate.num_rows();
        if self.cursor.1 == num_rows {
            proof {
                lemma_stack_push_empty(self.filestate@, self.undo_commands@);
                lemma_stack_push_empty(self.filestate@, self.redo_commands@);
            }
            let empty: Vec<char> = Vec::new();
            self.filestate.append_row(empty);
        }
        proof {
            if sel {
                // The undo entry for the selection deletion is a splice, so
                // the typed character cannot merge into it.
                assert(undo1.last() matches EditCommand::InsertString { location, contents });
            }
        }
        self.execute_command(&EditCommand::InsertChar { location: self.cursor, c });
        self.text_selected = false;
        proof {
            if sel {
                let ic = EditCommand::InsertChar { location: s, c };
                assert(merge_result(self.filestate@, undo1, ic) is None);
                assert(self.undo_commands@.drop_last() == undo1);
                assert(self.undo_commands@.take(undo0.len() as int) =~= undo0);
                assert(self.undo_commands@[undo0.len() as int] == undo1.last());
                assert(self.undo_steps@ =~= steps0.push(1).push(1));
                assert(norm_count(bump_count(norm_count(count0 as int))) == bump_count(
                    norm_count(count0 as int),
                ));
            }
        }
    }

    /// Splits the row at the cursor as an undoable edit; at the cursor just
    /// past the last row, an empty row is appended first.
    pub fn insert_newline(&mut self)
        requires
            old(self).wf(),
        ensures
            final(self).wf(),
            final(self).filestate.spec_meta() == old(self).filestate.spec_meta(),
            final(self).wrap_width == old(self).wrap_width,
            final(self).rowoff == old(self).rowoff,
            final(self).text_selected == old(self).text_selected,
            final(self).redo_commands@.len() == 0,
            final(self).redo_steps@.len() == 0,
            ({
                let rows = old(self).filestate@;
                let rows1 = if old(self).cursor.1 == rows.len() {
                    rows.push(Seq::empty())
                } else {
                    rows
                };
                let nl = EditCommand::InsertNewline { location: old(self).cursor };
                &&& final(self).filestate@ == apply_cmd(rows1, nl)
                &&& final(self).cursor.0 == 0
                &&& final(self).cursor.1 == old(self).cursor.1 + 1
                &&& final(self).undo_commands@.len() == old(self).undo_commands@.len() + 1
                &&& final(self).undo_commands@.drop_last() == old(self).undo_commands@
                &&& inverse_ok(rows1, nl, final(self).undo_commands@.last())
                &&& final(self).undo_steps@ == old(self).undo_steps@.push(1)
                &&& final(self).change_count == bump_count(
                    norm_count(old(self).change_count as int),
                )
            }),
    {
        let num_rows = self.filestate.num_rows();
        if self.cursor.1 == num_rows {
            proof {
                lemma_stack_push_empty(self.filestate@, self.undo_commands@);
                lemma_stack_push_empty(self.filestate@, self.redo_commands@);
            }
            let empty: Vec<char> = Vec::new();
            self.filestate.append_row(empty);
        }
        self.execute_command(&EditCommand::InsertNewline { location: self.cursor });
    }

    /// Records the pane width this component wraps its rows at.
    pub fn set_wrap_width(&mut self, width: usize)
        ensures
            final(self).wrap_width == width,
            final(self).filestate == old(self).filestate,
            final(self).undo_commands == old(self).undo_commands,
            final(self).undo_steps == old(self).undo_steps,
            final(self).redo_commands == old(self).redo_commands,
            final(self).redo_steps == old(self).redo_steps,
            final(self).change_count == old(self).change_count,
            final(self).cursor == old(self).cursor,
            final(self).text_selected == old(self).text_selected,
            final(self).anchor_start == old(self).anchor_start,
            final(self).anchor_end == old(self).anchor_end,
            final(self).rowoff == old(self).rowoff,
            final(self).wf() == old(self).wf(),
    {
        self.wrap_width = width;
    }

    /// Adopts the width of the pane's new bounds as the wrap width.
    pub fn resize(&mut self, bounds: &crate::ui::Rect)
        ensures
            final(self).wrap_width == bounds.width,
            final(self).filestate == old(self).filestate,
            final(self).undo_commands == old(self).undo_commands,
            final(self).undo_steps == old(self).undo_steps,
            final(self).redo_commands == old(self).redo_commands,
            final(self).redo_steps == old(self).redo_steps,
            final(self).change_count == old(self).change_count,
            final(self).cursor == old(self).cursor,
            final(self).text_selected == old(self).text_selected,
            final(self).anchor_start == old(self).anchor_start,
            final(self).anchor_end == old(self).anchor_end,
            final(self).rowoff == old(self).rowoff,
            final(self).wf() == old(self).wf(),
    {
        self.wrap_width = bounds.width;
    }

    /// How many screen lines the given buffer row occupies in this pane.
    pub fn row_height(&self, row: usize) -> (h: usize)
        requires
            self.wrap_width >= 2,
        ensures
            h == row_height_spec(self.filestate@, row as int, self.wrap_width as int),
            h >= 1,
    {
        let len = self.filestate.row_len(row);
        let reduced = if len == 0 {
            0
        } else {
            len - 1
        };
        1 + reduced / (self.wrap_width - 1)
    }

    /// Maps a pane-relative screen position to the buffer position it shows,
    /// walking wrapped rows from the top of the pane and clamping to the
    /// buffer.
    pub fn screen_to_text_coords(&self, x: usize, y: usize) -> (r: (usize, usize))
        requires
            self.wrap_width >= 2,
        ensures
            ({
                let loc = locate_visual_row(self.filestate@, y as int, self.wrap_width as int, 0);
                let col = sat_add(loc.1 * (self.wrap_width - 1), x as int);
                (r.0 as int, r.1 as int) == clamp_spec(self.filestate@, col, loc.0)
            }),
    {
        let w1 = self.wrap_width - 1;
        let mut i: usize = 0;
        let mut row: usize = 0;
        loop
            invariant
                self.wrap_width >= 2,
                w1 == self.wrap_width - 1,
                i <= y,
                row <= i,
                locate_visual_row(self.filestate@, (y - i) as int, self.wrap_width as int,
                    row as int,
                ) == locate_visual_row(self.filestate@, y as int, self.wrap_width as int, 0),
            ensures
                i <= y,
                row_height_spec(self.filestate@, row as int, self.wrap_width as int) > y - i,
                locate_visual_row(self.filestate@, (y - i) as int, self.wrap_width as int,
                    row as int,
                ) == locate_visual_row(self.filestate@, y as int, self.wrap_width as int, 0),
            decreases y - i,
        {
            let h = self.row_height(row);
            if h > y - i {
                break ;
            }
            i = i + h;
            row = row + 1;
        }
        let rem = y - i;
        let wide = rem.checked_mul(w1);
        let col = match wide {
            Option::Some(v) => v.saturating_add(x),
            Option::None => usize::MAX,
        };
        proof {
            assert(locate_visual_row(self.filestate@, (y - i) as int, self.wrap_width as int,
                row as int,
            ) == (row as int, (y - i) as int));
        }
        self.filestate.clamp_to_bounds((col, row))
    }

    /// Records a pointer press: moves the cursor and the press anchor to the
    /// buffer position under the pointer and clears the selection.
    pub fn mouse_down(&mut self, x: u16, y: u16)
        requires
            old(self).wf(),
            old(self).wrap_width >= 2,
        ensures
            final(self).wf(),
            final(self).filestate == old(self).filestate,
            !final(self).text_selected,
            final(self).anchor_start == final(self).cursor,
            final(self).anchor_end == old(self).anchor_end,
            ({
                let loc = locate_visual_row(
                    old(self).filestate@,
                    y as int,
                    old(self).wrap_width as int,
                    0,
                );
                let col = sat_add(loc.1 * (old(self).wrap_width - 1), x as int);
                (final(self).cursor.0 as int, final(self).cursor.1 as int) == clamp_spec(
                    old(self).filestate@,
                    col,
                    loc.0,
                )
            }),
            final(self).undo_commands == old(self).undo_commands,
            final(self).undo_steps == old(self).undo_steps,
            final(self).redo_commands == old(self).redo_commands,
            final(self).redo_steps == old(self).redo_steps,
            final(self).change_count == old(self).change_count,
            final(self).wrap_width == old(self).wrap_width,
            final(self).rowoff == old(self).rowoff,
    {
        self.cursor = self.screen_to_text_coords(x as usize, y as usize);
        self.anchor_start = self.cursor;
        self.text_selected = false;
        proof {
            assert(cursor_ok(self.filestate@, self.cursor.0 as int, self.cursor.1 as int));
        }
    }

    /// Records a pointer drag: moves the drag anchor and the cursor to the
    /// buffer position under the pointer; the selection becomes active
    /// exactly when the two anchors differ.
    pub fn mouse_drag(&mut self, x: u16, y: u16)
        requires
            old(self).wf(),
            old(self).wrap_width >= 2,
        ensures
            final(self).wf(),
            final(self).filestate == old(self).filestate,
            final(self).anchor_start == old(self).anchor_start,
            final(self).cursor == final(self).anchor_end,
            final(self).text_selected == (final(self).anchor_end != final(self).anchor_start),
            ({
                let loc = locate_visual_row(
                    old(self).filestate@,
                    y as int,
                    old(self).wrap_width as int,
                    0,
                );
                let col = sat_add(loc.1 * (old(self).wrap_width - 1), x as int);
                (final(self).anchor_end.0 as int, final(self).anchor_end.1 as int) == clamp_spec(
                    old(self).filestate@,
                    col,
                    loc.0,
                )
            }),
            final(self).undo_commands == old(self).undo_commands,
            final(self).undo_steps == old(self).undo_steps,
            final(self).redo_commands == old(self).redo_commands,
            final(self).redo_steps == old(self).redo_steps,
            final(self).change_count == old(self).change_count,
            final(self).wrap_width == old(self).wrap_width,
            final(self).rowoff == old(self).rowoff,
    {
        self.anchor_end = self.screen_to_text_coords(x as usize, y as usize);
        if self.anchor_end.0 != self.anchor_start.0 || self.anchor_end.1 != self.anchor_start.1 {
            self.text_selected = true;
        } else {
            self.text_selected = false;
        }
        self.cursor = self.anchor_end;
        proof {
            assert(cursor_ok(self.filestate@, self.cursor.0 as int, self.cursor.1 as int));
        }
    }

    /// Maps the logical cursor to its visual pane position under soft wrap
    /// at `width - 1` columns: every wrapped row between the scroll offset
    /// and the cursor row adds screen lines, and the cursor column wraps
    /// too. A visual row beyond the machine word saturates.
    pub fn wrapped_cursor_coords(&self, width: usize) -> (r: (usize, usize))
        requires
            width >= 2,
        ensures
            r.0 == self.cursor.0 as int % (width - 1),
            r.1 as int == ({
                let total = self.cursor.1 + wrap_sum(
                    self.filestate@,
                    self.rowoff as int,
                    self.cursor.1 as int,
                    width as int,
                ) + self.cursor.0 as int / (width - 1);
                if total > usize::MAX {
                    usize::MAX as int
                } else {
                    total
                }
            }),
    {
        let w1 = width - 1;
        let y = self.cursor.1;
        let x = self.cursor.0;
        let mut vis: usize = y;
        let mut i: usize = self.rowoff;
        proof {
            assert(wrap_sum(self.filestate@, self.rowoff as int, self.rowoff as int, width as int)
                == 0);
        }
        while i < y
            invariant
                width >= 2,
                w1 == width - 1,
                self.rowoff <= i <= y || (i == self.rowoff && self.rowoff >= y),
                y == self.cursor.1,
                vis as int == ({
                    let part = y + wrap_sum(
                        self.filestate@,
                        self.rowoff as int,
                        i as int,
                        width as int,
                    );
                    if part > usize::MAX {
                        usize::MAX as int
                    } else {
                        part
                    }
                }),
            decreases y - i,
        {
            let extra = self.filestate.row_len(i) / w1;
            vis = vis.saturating_add(extra);
            proof {
                lemma_wrap_sum_snoc(
                    self.filestate@,
                    self.rowoff as int,
                    i as int,
                    width as int,
                );
            }
            i = i + 1;
        }
        let extra = x / w1;
        let vis_final = vis.saturating_add(extra);
        (x % w1, vis_final)
    }


    /// Renders the visible buffer into the block, one screen line per block
    /// row up to the pane's last content line: wrapped slices of the file
    /// rows from the scroll offset down, a placeholder for lines past the
    /// end of the buffer, spaces as padding, and the border glyph in the
    /// last column of every line. With a selection active, the selected
    /// characters are drawn with an inverted background.
    #[verifier::rlimit(60)]
    pub fn draw_file_content(&self, bounds: &Rect, cellblock: &mut Vec<Vec<Cell>>)
        requires
            bounds.height >= 1,
            bounds.width >= 2,
            old(cellblock)@.len() == bounds.height,
            forall|v: int| 0 <= v < bounds.height ==> (#[trigger] old(cellblock)@[v])@.len() == 0,
        ensures
            final(cellblock)@.len() == bounds.height,
            final(cellblock)@[bounds.height - 1]@.len() == 0,
            forall|v: int|
                0 <= v < bounds.height - 1 ==> row_chars(#[trigger] final(cellblock)@[v]@)
                    == view_row_chars(
                    self.filestate@,
                    show_state(self.filestate@, self.rowoff as int, bounds.width as int, v),
                    bounds.width as int,
                ),
            !self.text_selected ==> forall|v: int, q: int|
                0 <= v < bounds.height - 1 && 0 <= q < final(cellblock)@[v]@.len() ==> {
                    &&& (#[trigger] final(cellblock)@[v]@[q]).text_color == Color::White
                    &&& final(cellblock)@[v]@[q].bg_color == Color::Black
                },
    {
        let ghost rows = self.filestate@;
        let ghost w = bounds.width as int;
        let num_rows = self.filestate.num_rows();
        let w1 = bounds.width - 1;
        let mut view_row: usize = 0;
        let mut file_row: usize = self.rowoff;
        let mut i: usize = 0;

        while view_row < bounds.height - 1
            invariant
                bounds.width >= 2,
                w == bounds.width as int,
                w1 == bounds.width - 1,
                rows == self.filestate@,
                num_rows == rows.len(),
                view_row <= bounds.height - 1,
                cellblock@.len() == bounds.height,
                (file_row as int, i as int) == show_state(rows, self.rowoff as int, w,
                    view_row as int,
                ),
                file_row < num_rows ==> i <= rows[file_row as int].len(),
                forall|v: int|
                    view_row <= v < bounds.height ==> (#[trigger] cellblock@[v])@.len() == 0,
                forall|v: int|
                    0 <= v < view_row ==> row_chars(#[trigger] cellblock@[v]@) == view_row_chars(
                        rows,
                        show_state(rows, self.rowoff as int, w, v),
                        w,
                    ),
                !self.text_selected ==> forall|v: int, q: int|
                    0 <= v < view_row && 0 <= q < cellblock@[v]@.len() ==> {
                        &&& (#[trigger] cellblock@[v]@[q]).text_color == Color::White
                        &&& cellblock@[v]@[q].bg_color == Color::Black
                    },
            decreases bounds.height - 1 - view_row,
        {
            let ghost st = (file_row as int, i as int);
            let ghost expect = view_row_chars(rows, st, w);
            let ghost pre_block = cellblock@;
            if file_row >= num_rows {
                // Past the end of the buffer: a placeholder line.
                let mut txt: Vec<char> = Vec::new();
                txt.push('~');
                let mut p: usize = 0;
                while p < bounds.width - 2
                    invariant
                        p <= bounds.width - 2,
                        txt@ == seq!['~'] + spaces(p as int),
                    decreases bounds.width - 2 - p,
                {
                    txt.push(' ');
                    proof {
                        assert(txt@ =~= seq!['~'] + spaces(p + 1));
                    }
                    p = p + 1;
                }
                txt.push(BORDER);
                proof {
                    assert(txt@ =~= expect);
                }
                let cell = Cell::new(txt, Color::White, Color::Black);
                let ghost pre_row = cellblock@[view_row as int]@;
                cellblock[view_row].push(cell);
                proof {
                    lemma_row_chars_push(pre_row, cellblock@[view_row as int]@.last());
                    assert(cellblock@[view_row as int]@ =~= pre_row.push(
                        cellblock@[view_row as int]@.last(),
                    ));
                    assert(row_chars(cellblock@[view_row as int]@) =~= expect);
                }
            } else {
                let cur_row_len = self.filestate.row_len(file_row);
                // Take the largest slice of the file row that fits the line.
                let j = if cur_row_len - i > w1 {
                    i + w1
                } else {
                    cur_row_len
                };
                let ghost pre_row = cellblock@[view_row as int]@;
                let ghost slice = rows[file_row as int].subrange(i as int, j as int);

                // The slice, split into selection-highlighted runs.
                if self.text_selected {
                    let (s, e) = self.get_anchors();
                    let sfr = (i, file_row);
                    let efr = (j, file_row);
                    if crate::coord::between(s, sfr, efr) && crate::coord::between(e, sfr, efr) {
                        // A highlighted section inside the line.
                        let a = copy_range(self.filestate.get_row_contents(file_row), i, s.0);
                        let b = copy_range(self.filestate.get_row_contents(file_row), s.0, e.0);
                        let c = copy_range(self.filestate.get_row_contents(file_row), e.0, j);
                        self.push_run(cellblock, view_row, a, Color::White, Color::Black);
                        self.push_run(cellblock, view_row, b, Color::Black, Color::Cyan);
                        self.push_run(cellblock, view_row, c, Color::White, Color::Black);
                        proof {
                            assert(row_chars(cellblock@[view_row as int]@) =~= slice);
                        }
                    } else if !crate::coord::after(s, sfr) && !crate::coord::before(e, efr) {
                        // The whole line is highlighted.
                        let b = copy_range(self.filestate.get_row_contents(file_row), i, j);
                        self.push_run(cellblock, view_row, b, Color::Black, Color::Cyan);
                        proof {
                            assert(row_chars(cellblock@[view_row as int]@) =~= slice);
                        }
                    } else if crate::coord::between(e, sfr, efr) {
                        // The head of the line is highlighted.
                        let a = copy_range(self.filestate.get_row_contents(file_row), i, e.0);
                        let b = copy_range(self.filestate.get_row_contents(file_row), e.0, j);
                        self.push_run(cellblock, view_row, a, Color::Black, Color::Cyan);
                        self.push_run(cellblock, view_row, b, Color::White, Color::Black);
                        proof {
                            assert(row_chars(cellblock@[view_row as int]@) =~= slice);
                        }
                    } else if crate::coord::between(s, sfr, efr) {
                        // The tail of the line is highlighted.
                        let a = copy_range(self.filestate.get_row_contents(file_row), i, s.0);
                        let b = copy_range(self.filestate.get_row_contents(file_row), s.0, j);
                        self.push_run(cellblock, view_row, a, Color::White, Color::Black);
                        self.push_run(cellblock, view_row, b, Color::Black, Color::Cyan);
                        proof {
                            assert(row_chars(cellblock@[view_row as int]@) =~= slice);
                        }
                    } else {
                        let b = copy_range(self.filestate.get_row_contents(file_row), i, j);
                        self.push_run(cellblock, view_row, b, Color::White, Color::Black);
                        proof {
                            assert(row_chars(cellblock@[view_row as int]@) =~= slice);
                        }
                    }
                } else {
                    let b = copy_range(self.filestate.get_row_contents(file_row), i, j);
                    self.push_run(cellblock, view_row, b, Color::White, Color::Black);
                    proof {
                        assert(row_chars(cellblock@[view_row as int]@) =~= slice);
                    }
                }

                // Space padding up to the border column, and the border.
                let pad = w1.saturating_sub(cur_row_len - i);
                let mut ptxt: Vec<char> = Vec::new();
                let mut p: usize = 0;
                while p < pad
                    invariant
                        p <= pad,
                        ptxt@ == spaces(p as int),
                    decreases pad - p,
                {
                    ptxt.push(' ');
                    proof {
                        assert(ptxt@ =~= spaces(p + 1));
                    }
                    p = p + 1;
                }
                ptxt.push(BORDER);
                proof {
                    assert(ptxt@ =~= spaces(pad as int) + seq![BORDER]);
                    assert(pad as int == w - 1 - (j - i));
                }
                let ghost mid_row = cellblock@[view_row as int]@;
                let pcell = Cell::new(ptxt, Color::White, Color::Black);
                cellblock[view_row].push(pcell);
                proof {
                    lemma_row_chars_push(mid_row, cellblock@[view_row as int]@.last());
                    assert(cellblock@[view_row as int]@ =~= mid_row.push(
                        cellblock@[view_row as int]@.last(),
                    ));
                    assert(row_chars(cellblock@[view_row as int]@) =~= expect);
                }

                // Move the slice state to the next screen line.
                if j == cur_row_len {
                    i = 0;
                    file_row = file_row + 1;
                } else {
                    i = j;
                }
            }
            proof {
                assert(forall|v: int|
                    0 <= v < cellblock@.len() && v != view_row ==> #[trigger] cellblock@[v]
                        == pre_block[v]);
                assert((file_row as int, i as int) == advance_state(rows, w, st));
            }
            view_row = view_row + 1;
        }
    }

    /// Appends one styled run to a block row; a helper for the renderer.
    fn push_run(
        &self,
        cellblock: &mut Vec<Vec<Cell>>,
        view_row: usize,
        text: Vec<char>,
        fg: Color,
        bg: Color,
    )
        requires
            view_row < old(cellblock)@.len(),
        ensures
            final(cellblock)@.len() == old(cellblock)@.len(),
            forall|v: int|
                0 <= v < old(cellblock)@.len() && v != view_row
                    ==> #[trigger] final(cellblock)@[v] == old(cellblock)@[v],
            final(cellblock)@[view_row as int]@ == old(cellblock)@[view_row as int]@.push(
                Cell { text, text_color: fg, bg_color: bg },
            ),
            row_chars(final(cellblock)@[view_row as int]@) == row_chars(
                old(cellblock)@[view_row as int]@,
            ) + text@,
    {
        let ghost pre = cellblock@[view_row as int]@;
        let ghost c = Cell { text: text, text_color: fg, bg_color: bg };
        cellblock[view_row].push(Cell { text, text_color: fg, bg_color: bg });
        proof {
            lemma_row_chars_push(pre, c);
        }
    }


    /// Renders the pane's status line into the last row of the block: one
    /// run holding the file name, line count and modified marker on the
    /// left and the extension on the right, padded or truncated to the
    /// pane width.
    pub fn draw_file_info(&self, bounds: &Rect, cellblock: &mut Vec<Vec<Cell>>)
        requires
            bounds.height >= 1,
            old(cellblock)@.len() == bounds.height,
        ensures
            final(cellblock)@.len() == bounds.height,
            forall|v: int|
                0 <= v < bounds.height - 1 ==> #[trigger] final(cellblock)@[v] == old(
                    cellblock,
                )@[v],
            final(cellblock)@[bounds.height - 1]@ == old(cellblock)@[bounds.height - 1]@.push(
                final(cellblock)@[bounds.height - 1]@.last(),
            ),
            final(cellblock)@[bounds.height - 1]@.last().text@ == info_chars(
                self.filestate.spec_meta().0,
                self.filestate.spec_meta().2,
                self.filestate@.len() as int,
                self.change_count != 0,
                bounds.width as int,
            ),
            final(cellblock)@[bounds.height - 1]@.last().text_color == Color::Black,
            final(cellblock)@[bounds.height - 1]@.last().bg_color == Color::Grey,
    {
        proof {
            reveal_strlit("[No name]");
            reveal_strlit("Plaintext");
            reveal_strlit(" - ");
            reveal_strlit(" lines ");
            reveal_strlit("(modified)");
        }
        let ghost name = self.filestate.spec_meta().0;
        let ghost ext = self.filestate.spec_meta().2;

        let mut lstatus: Vec<char> = Vec::new();
        lstatus.push(' ');
        if self.filestate.filename().len() == 0 {
            proof {
                assert(vstd::string::is_ascii("[No name]"));
            }
            let lit = str_to_chars("[No name]");
            extend_chars(&mut lstatus, &lit);
        } else {
            extend_chars(&mut lstatus, self.filestate.filename());
        }
        proof {
            assert(vstd::string::is_ascii(" - "));
            assert(vstd::string::is_ascii(" lines "));
            assert(vstd::string::is_ascii("(modified)"));
        }
        let sep = str_to_chars(" - ");
        extend_chars(&mut lstatus, &sep);
        let digits = usize_to_chars(self.filestate.num_rows());
        extend_chars(&mut lstatus, &digits);
        let lines_lit = str_to_chars(" lines ");
        extend_chars(&mut lstatus, &lines_lit);
        if self.change_count != 0 {
            let m = str_to_chars("(modified)");
            extend_chars(&mut lstatus, &m);
        }
        proof {
            let name1 = if name.len() == 0 {
                "[No name]"@
            } else {
                name
            };
            assert(lstatus@ =~= seq![' '] + name1 + " - "@ + dec_digits(self.filestate@.len() as int)
                + " lines "@ + (if self.change_count != 0 {
                "(modified)"@
            } else {
                Seq::<char>::empty()
            }));
        }

        let mut rstatus: Vec<char> = Vec::new();
        if self.filestate.ext().len() == 0 {
            proof {
                assert(vstd::string::is_ascii("Plaintext"));
            }
            let lit = str_to_chars("Plaintext");
            extend_chars(&mut rstatus, &lit);
        } else {
            extend_chars(&mut rstatus, self.filestate.ext());
        }
        rstatus.push(' ');
        proof {
            let ext1 = if ext.len() == 0 {
                "Plaintext"@
            } else {
                ext
            };
            assert(rstatus@ =~= ext1 + seq![' ']);
        }

        let pad = bounds.width.saturating_sub(lstatus.len().saturating_add(rstatus.len()));
        let mut msg = lstatus;
        let mut p: usize = 0;
        let ghost msg0 = msg@;
        while p < pad
            invariant
                p <= pad,
                msg@ == msg0 + spaces(p as int),
            decreases pad - p,
        {
            msg.push(' ');
            proof {
                assert(msg@ =~= msg0 + spaces(p + 1));
            }
            p = p + 1;
        }
        extend_chars(&mut msg, &rstatus);
        proof {
            assert(msg@ =~= msg0 + spaces(
                bounds.width - msg0.len() - rstatus@.len(),
            ) + rstatus@);
        }

        let cell: Cell;
        if msg.len() > bounds.width {
            let cut = copy_range(&msg, 0, bounds.width);
            cell = Cell::new(cut, Color::Black, Color::Grey);
            proof {
                assert(cell.text@ =~= info_chars(name, ext, self.filestate@.len() as int,
                    self.change_count != 0, bounds.width as int));
            }
        } else {
            let mut padded = msg;
            let deficit = bounds.width - padded.len();
            let mut q: usize = 0;
            let ghost padded0 = padded@;
            while q < deficit
                invariant
                    q <= deficit,
                    padded@ == padded0 + spaces(q as int),
                decreases deficit - q,
            {
                padded.push(' ');
                proof {
                    assert(padded@ =~= padded0 + spaces(q + 1));
                }
                q = q + 1;
            }
            cell = Cell::new(padded, Color::Black, Color::Grey);
            proof {
                assert(cell.text@ =~= info_chars(name, ext, self.filestate@.len() as int,
                    self.change_count != 0, bounds.width as int));
            }
        }
        let ghost pre = cellblock@[bounds.height - 1]@;
        cellblock[bounds.height - 1].push(cell);
    }


    /// Routes one input event to the pane: mouse presses and drags move the
    /// cursor and selection, arrow keys move the cursor, deletion and typing
    /// keys edit the buffer. Returns whether the screen must be redrawn,
    /// only the cursor repositioned, or nothing done.
    pub fn handle_event(&mut self, event: Event) -> (resp: EventResponse)
        requires
            old(self).wf(),
            event matches Event::Mouse(m) ==> old(self).wrap_width >= 2,
        ensures
            final(self).wf(),
            pane_event_effect(*old(self), *final(self), event, resp),
    {
        match event {
            Event::Mouse(m) => {
                if m.kind == MouseEventKind::Down {
                    let resp = if self.text_selected {
                        EventResponse::RedrawDisplay
                    } else {
                        EventResponse::MoveCursor
                    };
                    self.mouse_down(m.column, m.row);
                    resp
                } else if m.kind == MouseEventKind::Drag {
                    self.mouse_drag(m.column, m.row);
                    EventResponse::RedrawDisplay
                } else {
                    EventResponse::NoResponse
                }
            },
            Event::Key(k) => {
                match k.code {
                    KeyCode::Up => {
                        self.move_cursor_up();
                        EventResponse::MoveCursor
                    },
                    KeyCode::Down => {
                        self.move_cursor_down();
                        EventResponse::MoveCursor
                    },
                    KeyCode::Left => {
                        self.move_cursor_left();
                        EventResponse::MoveCursor
                    },
                    KeyCode::Right => {
                        self.move_cursor_right();
                        EventResponse::MoveCursor
                    },
                    KeyCode::Delete => {
                        self.delete();
                        EventResponse::RedrawDisplay
                    },
                    KeyCode::Backspace => {
                        self.delete();
                        EventResponse::RedrawDisplay
                    },
                    KeyCode::Enter => {
                        self.insert_newline();
                        EventResponse::RedrawDisplay
                    },
                    KeyCode::Char(c) => {
                        if c == 'h' && k.modifiers == crate::ui::KeyModifiers::Control {
                            self.delete();
                            EventResponse::RedrawDisplay
                        } else if c == '\n' || c == '\r' {
                            self.insert_newline();
                            EventResponse::RedrawDisplay
                        } else {
                            self.insert_char(c);
                            EventResponse::RedrawDisplay
                        }
                    },
                    _ => EventResponse::NoResponse,
                }
            },
            Event::Resize(_, _) => EventResponse::NoResponse,
        }
    }

    /// Handles a message from another component: undoes or redoes one step
    /// and asks for a redraw.
    pub fn send_msg(&mut self, msg: &EditMsg) -> (resp: EventResponse)
        requires
            old(self).wf(),
        ensures
            final(self).wf(),
            pane_msg_effect(*old(self), *final(self), *msg, resp),
    {
        match msg {
            EditMsg::Undo => {
                self.execute_undo();
            },
            EditMsg::Redo => {
                self.execute_redo();
            },
        }
        EventResponse::RedrawDisplay
    }

    /// Renders the pane into the display at its bounds: the buffer content
    /// above, the status line below. Panes narrower than two columns or
    /// shorter than one row draw nothing.
    pub fn draw(&self, bounds: &Rect, displ: &mut Display)
        requires
            old(displ).wf(),
        ensures
            final(displ).wf(),
            pane_draw_effect(*old(displ), *final(displ), *self, *bounds),
    {
        if bounds.width < 2 || bounds.height < 1 {
            return ;
        }
        let mut cellblock = Cell::empty_cellblock(bounds.height);
        self.draw_file_content(bounds, &mut cellblock);
        self.draw_file_info(bounds, &mut cellblock);
        let ghost cells = cellblock@;
        displ.draw(bounds, &cellblock);
        proof {
            assert forall|v: int| 0 <= v < bounds.height - 1 && bounds.y + v < old(displ).height
                implies crate::display::row_written(
                #[trigger] displ.grid_view()[bounds.y + v],
                old(displ).grid_view()[bounds.y + v],
                bounds.x as int,
                view_row_chars(
                    self.filestate@,
                    show_state(self.filestate@, self.rowoff as int, bounds.width as int, v),
                    bounds.width as int,
                ),
            ) by {
                let oldrow = old(displ).grid_view()[bounds.y + v];
                let f = crate::display::flat_row(cells[v]@);
                crate::display::lemma_overlay_row_written(oldrow, bounds.x as int, f);
                assert(f.map_values(|sc: crate::display::ScreenCell| sc.ch) == row_chars(
                    cells[v]@,
                ));
            }
            if bounds.y + bounds.height - 1 < old(displ).height {
                let v = bounds.height - 1;
                let oldrow = old(displ).grid_view()[bounds.y + v];
                let f = crate::display::flat_row(cells[v as int]@);
                crate::display::lemma_overlay_row_written(oldrow, bounds.x as int, f);
                lemma_row_chars_push(
                    cells[v as int]@.drop_last(),
                    cells[v as int]@.last(),
                );
                assert(cells[v as int]@.drop_last().push(cells[v as int]@.last()) =~= cells[
                    v as int
                ]@);
                assert(row_chars(cells[v as int]@.drop_last()) =~= Seq::<char>::empty());
                assert(row_chars(cells[v as int]@) =~= cells[v as int]@.last().text@);
                assert(f.map_values(|sc: crate::display::ScreenCell| sc.ch) == row_chars(
                    cells[v as int]@,
                ));
            }
        }
    }

    /// Returns the selection anchors in row-major order: the first returned
    /// position is never after the second, whichever anchor was recorded
    /// first.
    pub fn get_anchors(&self) -> (r: ((usize, usize), (usize, usize)))
        ensures
            !crate::coord::spec_after(r.0, r.1),
            (r.0 == self.anchor_start && r.1 == self.anchor_end) || (r.0 == self.anchor_end && r.1
                == self.anchor_start),
    {
        let anchor_start: (usize, usize);
        let anchor_end: (usize, usize);

        // The start should always be before the end; swap if necessary.
        if (self.anchor_end.1 < self.anchor_start.1) || (self.anchor_start.1 == self.anchor_end.1
            && self.anchor_start.0 > self.anchor_end.0) {
            anchor_start = self.anchor_end;
            anchor_end = self.anchor_start;
        } else {
            anchor_start = self.anchor_start;
            anchor_end = self.anchor_end;
        }
        (anchor_start, anchor_end)
    }
}

} // verus!
