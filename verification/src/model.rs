//! The cursor-based view of a text buffer.
//!
//! A `Model` wraps one row-oriented buffer together with a cursor, scroll
//! offsets, selection anchors, a mode flag and a status message. Its edit
//! operations act at the cursor and move it; the underlying buffer semantics
//! are those of `FileState`.

use vstd::prelude::*;

use crate::file::{FileState, insert_newline_spec, insert_char_spec, insert_string_spec,
    insert_string_coord, delete_char_spec, delete_char_coord, delete_range_spec, selection_spec,
    get_char_spec, delete_rows_spec, clamp_spec};
use crate::edit::cursor_ok;
use crate::text::lines_wf;

verus! {

/// A status-bar message with its severity.
pub enum StatusMsg {
    /// An informational message.
    Normal(Vec<char>),
    /// A warning.
    Warn(Vec<char>),
    /// An error report.
    Error(Vec<char>),
}

/// One open buffer with its cursor, scroll offsets, selection anchors, mode
/// flag and status message.
pub struct Model {
    /// The cursor column.
    pub cx: usize,
    /// The cursor row.
    pub cy: usize,
    /// The first buffer row shown on screen.
    pub rowoff: usize,
    /// The first buffer column shown on screen.
    pub coloff: usize,
    /// The status-bar message.
    pub status_msg: StatusMsg,
    /// The selection anchor recorded at pointer press.
    pub anchor_start: (usize, usize),
    /// The selection anchor recorded at the end of a pointer drag.
    pub anchor_end: (usize, usize),
    /// Whether a selection is active.
    pub text_selected: bool,
    /// The input mode tag shown in the status bar.
    pub mode: char,
    /// Whether the buffer has unsaved changes.
    pub dirty: bool,
    /// The text rows together with the file name metadata.
    pub buf: FileState,
}

impl Model {
    /// The buffer is well formed and the cursor lies within it.
    pub open spec fn wf(&self) -> bool {
        &&& self.buf.wf()
        &&& cursor_ok(self.buf@, self.cx as int, self.cy as int)
    }

    /// An empty buffer with the cursor at the origin, no selection, normal
    /// mode and a short help message.
    pub fn new() -> (r: Model)
        ensures
            r.wf(),
            r.buf@ == Seq::<Seq<char>>::empty(),
            r.cx == 0 && r.cy == 0,
            r.rowoff == 0 && r.coloff == 0,
            !r.text_selected,
            r.anchor_start == (0usize, 0usize),
            r.anchor_end == (0usize, 0usize),
            r.mode == 'N',
            !r.dirty,
            r.status_msg matches StatusMsg::Normal(m) && m@
                == "HELP: Ctrl-S = save | Ctrl-Q = quit | Ctrl-F = find"@,
    {
        proof {
            reveal_strlit("HELP: Ctrl-S = save | Ctrl-Q = quit | Ctrl-F = find");
            assert(vstd::string::is_ascii("HELP: Ctrl-S = save | Ctrl-Q = quit | Ctrl-F = find"));
        }
        let help = crate::text::str_to_chars("HELP: Ctrl-S = save | Ctrl-Q = quit | Ctrl-F = find");
        Model {
            cx: 0,
            cy: 0,
            rowoff: 0,
            coloff: 0,
            status_msg: StatusMsg::Normal(help),
            anchor_start: (0, 0),
            anchor_end: (0, 0),
            text_selected: false,
            mode: 'N',
            dirty: false,
            buf: FileState::new(),
        }
    }

    /// Renames the buffer: the file name becomes `new_name`, the extension
    /// whatever follows its last dot (empty if none), and the stored path
    /// keeps its directory part with the new name as its final segment.
    pub fn rename_file(&mut self, new_name: &Vec<char>)
        ensures
            final(self).buf@ == old(self).buf@,
            final(self).buf.spec_meta().0 == new_name@,
            final(self).buf.spec_meta().1 == old(self).buf.spec_meta().1.take(
                last_sep_end(old(self).buf.spec_meta().1),
            ) + new_name@,
            final(self).buf.spec_meta().2 == ext_of(new_name@),
            final(self).buf.wf() == old(self).buf.wf(),
            final(self).cx == old(self).cx && final(self).cy == old(self).cy,
            final(self).rowoff == old(self).rowoff,
            final(self).coloff == old(self).coloff,
            final(self).status_msg == old(self).status_msg,
            final(self).mode == old(self).mode,
            final(self).dirty == old(self).dirty,
            final(self).anchor_start == old(self).anchor_start,
            final(self).anchor_end == old(self).anchor_end,
            final(self).text_selected == old(self).text_selected,
    {
        let ghost p = self.buf.spec_meta().1;
        let nlen = new_name.len();

        // The extension: whatever follows the last dot of the new name.
        let mut dot: usize = nlen;
        let mut k: usize = nlen;
        proof {
            assert(new_name@.take(nlen as int) =~= new_name@);
        }
        while k > 0
            invariant
                k <= nlen,
                nlen == new_name@.len(),
                last_dot(new_name@) == last_dot(new_name@.take(k as int)),
                dot <= nlen,
                dot as int == if last_dot(new_name@) == -1 {
                    nlen as int
                } else {
                    last_dot(new_name@)
                } || dot == nlen,
            ensures
                dot as int == if last_dot(new_name@) == -1 {
                    nlen as int
                } else {
                    last_dot(new_name@)
                },
            decreases k,
        {
            if new_name[k - 1] == '.' {
                dot = k - 1;
                proof {
                    assert(new_name@.take(k as int).last() == '.');
                }
                break ;
            }
            proof {
                assert(new_name@.take(k as int).last() != '.');
                assert(new_name@.take(k as int).drop_last() =~= new_name@.take(k - 1));
            }
            k = k - 1;
        }
        let ext = if dot < nlen {
            crate::text::copy_range(new_name, dot + 1, nlen)
        } else {
            Vec::new()
        };
        proof {
            if dot < nlen {
                assert(last_dot(new_name@) == dot as int);
                assert(ext@ =~= new_name@.skip(dot + 1));
                assert(ext@ =~= ext_of(new_name@));
            } else {
                lemma_last_dot_bound(new_name@);
                assert(last_dot(new_name@) == -1);
                assert(ext@ =~= ext_of(new_name@));
            }
        }

        // The new path: the old directory part, then the new final segment.
        let plen = self.buf.path().len();
        let mut cut: usize = 0;
        let mut q: usize = plen;
        proof {
            assert(p.take(plen as int) =~= p);
        }
        while q > 0
            invariant_except_break
                cut == 0,
            invariant
                q <= plen,
                plen == p.len(),
                p == self.buf.spec_meta().1,
                self == old(self),
                cut <= plen,
                last_sep_end(p) == last_sep_end(p.take(q as int)),
            ensures
                p == self.buf.spec_meta().1,
                self == old(self),
                cut <= plen,
                cut == last_sep_end(p),
            decreases q,
        {
            if self.buf.path()[q - 1] == '/' {
                cut = q;
                proof {
                    assert(p.take(q as int).last() == '/');
                }
                break ;
            }
            proof {
                assert(p.take(q as int).last() != '/');
                assert(p.take(q as int).drop_last() =~= p.take(q - 1));
            }
            q = q - 1;
        }
        proof {
            if cut == 0 {
                assert(p.take(0) =~= Seq::<char>::empty());
            }
        }
        let name = crate::text::copy_range(new_name, 0, nlen);
        let mut path = crate::text::copy_range(self.buf.path(), 0, cut);
        crate::text::extend_chars(&mut path, new_name);
        self.buf.set_meta(name, path, ext);
    }

    /// Appends `line` as a new last row.
    fn append_row(&mut self, line: Vec<char>)
        requires
            old(self).wf(),
            crate::text::line_wf(line@),
        ensures
            final(self).wf(),
            final(self).buf@ == old(self).buf@.push(line@),
            final(self).cx == old(self).cx && final(self).cy == old(self).cy,
    {
        self.buf.append_row(line);
        proof {
            assert(cursor_ok(self.buf@, self.cx as int, self.cy as int) || self.cy
                == old(self).buf@.len());
            if self.cy == old(self).buf@.len() {
                assert(self.cx == 0);
            }
        }
    }

    /// Splits the row at the cursor; the cursor moves to the start of the
    /// new row.
    pub fn insert_newline(&mut self)
        requires
            old(self).wf(),
            old(self).cy < old(self).buf@.len(),
        ensures
            final(self).wf(),
            final(self).buf@ == insert_newline_spec(
                old(self).buf@,
                old(self).cx as int,
                old(self).cy as int,
            ),
            final(self).cx == 0,
            final(self).cy == old(self).cy + 1,
            final(self).text_selected == old(self).text_selected,
            final(self).buf.spec_meta() == old(self).buf.spec_meta(),
            final(self).rowoff == old(self).rowoff,
            final(self).coloff == old(self).coloff,
            final(self).status_msg == old(self).status_msg,
            final(self).mode == old(self).mode,
            final(self).dirty == old(self).dirty,
            final(self).anchor_start == old(self).anchor_start,
            final(self).anchor_end == old(self).anchor_end,
    {
        let end = self.buf.insert_newline((self.cx, self.cy));
        self.cx = end.0;
        self.cy = end.1;
    }

    /// Inserts one character at the cursor and moves the cursor past it; at
    /// the cursor just past the last row, a new empty row is appended first.
    pub fn insert_char(&mut self, c: char)
        requires
            old(self).wf(),
            c != '\n',
        ensures
            final(self).wf(),
            final(self).buf@ == insert_char_spec(
                old(self).buf@,
                old(self).cx as int,
                old(self).cy as int,
                c,
            ),
            final(self).cx == old(self).cx + 1,
            final(self).cy == old(self).cy,
            final(self).text_selected == old(self).text_selected,
            final(self).buf.spec_meta() == old(self).buf.spec_meta(),
            final(self).rowoff == old(self).rowoff,
            final(self).coloff == old(self).coloff,
            final(self).status_msg == old(self).status_msg,
            final(self).mode == old(self).mode,
            final(self).dirty == old(self).dirty,
            final(self).anchor_start == old(self).anchor_start,
            final(self).anchor_end == old(self).anchor_end,
    {
        let end = self.buf.insert_char(c, (self.cx, self.cy));
        self.cx = end.0;
        self.cy = end.1;
    }

    /// Splices a string (possibly holding newlines) in at the cursor and
    /// moves the cursor just past it.
    pub fn insert_string(&mut self, contents: &Vec<char>)
        requires
            old(self).wf(),
            old(self).cy < old(self).buf@.len(),
        ensures
            final(self).wf(),
            final(self).buf@ == insert_string_spec(
                old(self).buf@,
                old(self).cx as int,
                old(self).cy as int,
                contents@,
            ),
            (final(self).cx as int, final(self).cy as int) == insert_string_coord(
                old(self).buf@,
                old(self).cx as int,
                old(self).cy as int,
                contents@,
            ),
            final(self).text_selected == old(self).text_selected,
            final(self).buf.spec_meta() == old(self).buf.spec_meta(),
            final(self).rowoff == old(self).rowoff,
            final(self).coloff == old(self).coloff,
            final(self).status_msg == old(self).status_msg,
            final(self).mode == old(self).mode,
            final(self).dirty == old(self).dirty,
            final(self).anchor_start == old(self).anchor_start,
            final(self).anchor_end == old(self).anchor_end,
    {
        let end = self.buf.insert_string(contents, (self.cx, self.cy));
        self.cx = end.0;
        self.cy = end.1;
        proof {
            crate::laws::lemma_insert_string_inverse(
                old(self).buf@,
                old(self).cx as int,
                old(self).cy as int,
                contents@,
            );
        }
    }

    /// Removes the row at `row_idx`.
    pub fn delete_row(&mut self, row_idx: usize)
        requires
            old(self).buf.wf(),
            row_idx < old(self).buf@.len(),
        ensures
            final(self).buf@ == old(self).buf@.remove(row_idx as int),
            final(self).buf.wf(),
            final(self).cx == old(self).cx && final(self).cy == old(self).cy,
            final(self).buf.spec_meta() == old(self).buf.spec_meta(),
            final(self).rowoff == old(self).rowoff,
            final(self).coloff == old(self).coloff,
            final(self).status_msg == old(self).status_msg,
            final(self).mode == old(self).mode,
            final(self).dirty == old(self).dirty,
            final(self).anchor_start == old(self).anchor_start,
            final(self).anchor_end == old(self).anchor_end,
    {
        self.buf.delete_row(row_idx);
    }

    /// Removes `num_removed` consecutive rows starting at `row_idx`.
    pub fn delete_rows(&mut self, row_idx: usize, num_removed: usize)
        requires
            old(self).buf.wf(),
            row_idx + num_removed <= old(self).buf@.len(),
        ensures
            final(self).buf@ == delete_rows_spec(
                old(self).buf@,
                row_idx as int,
                num_removed as int,
            ),
            final(self).buf.wf(),
            final(self).cx == old(self).cx && final(self).cy == old(self).cy,
            final(self).buf.spec_meta() == old(self).buf.spec_meta(),
            final(self).rowoff == old(self).rowoff,
            final(self).coloff == old(self).coloff,
            final(self).status_msg == old(self).status_msg,
            final(self).mode == old(self).mode,
            final(self).dirty == old(self).dirty,
            final(self).anchor_start == old(self).anchor_start,
            final(self).anchor_end == old(self).anchor_end,
    {
        self.buf.delete_rows(row_idx, num_removed);
    }

    /// Deletes the character just before the cursor, joining rows at a row
    /// start; the buffer start and positions past the end are no-ops. The
    /// cursor moves to where the deleted character stood.
    pub fn delete_char(&mut self)
        requires
            old(self).wf(),
        ensures
            final(self).wf(),
            final(self).buf@ == delete_char_spec(
                old(self).buf@,
                old(self).cx as int,
                old(self).cy as int,
            ),
            (final(self).cx as int, final(self).cy as int) == delete_char_coord(
                old(self).buf@,
                old(self).cx as int,
                old(self).cy as int,
            ),
            final(self).text_selected == old(self).text_selected,
            final(self).buf.spec_meta() == old(self).buf.spec_meta(),
            final(self).rowoff == old(self).rowoff,
            final(self).coloff == old(self).coloff,
            final(self).status_msg == old(self).status_msg,
            final(self).mode == old(self).mode,
            final(self).dirty == old(self).dirty,
            final(self).anchor_start == old(self).anchor_start,
            final(self).anchor_end == old(self).anchor_end,
    {
        let end = self.buf.delete_char((self.cx, self.cy));
        self.cx = end.0;
        self.cy = end.1;
        proof {
            if !(old(self).cy == old(self).buf@.len()) && !(old(self).cx == 0 && old(self).cy
                == 0) && !(old(self).cx == 0) {
                crate::laws::lemma_delete_char_inverse(
                    old(self).buf@,
                    old(self).cx as int,
                    old(self).cy as int,
                );
            }
            if old(self).cx == 0 && old(self).cy > 0 && old(self).cy < old(self).buf@.len() {
                crate::laws::lemma_delete_char_inverse(
                    old(self).buf@,
                    old(self).cx as int,
                    old(self).cy as int,
                );
            }
        }
    }

    /// The character the cursor points at: the one just before it, or `'\n'`
    /// at a row start.
    pub fn get_char(&self) -> (c: char)
        requires
            self.cy < self@.len(),
        ensures
            c == get_char_spec(self@, self.cx as int, self.cy as int),
    {
        self.buf.get_char((self.cx, self.cy))
    }

    /// The character the given position points at; see `get_char`.
    pub fn get_char_at(&self, location: (usize, usize)) -> (c: char)
        requires
            location.1 < self@.len(),
        ensures
            c == get_char_spec(self@, location.0 as int, location.1 as int),
    {
        self.buf.get_char(location)
    }

    /// Deletes the normalized selection range and moves the cursor to its
    /// start.
    pub fn delete_selection(&mut self)
        requires
            old(self).wf(),
            old(self).spec_anchors().1.1 < old(self).buf@.len(),
            old(self).spec_anchors().0.0 <= old(self).buf@[old(self).spec_anchors().0.1 as int].len(),
            old(self).spec_anchors().1.0 <= old(self).buf@[old(self).spec_anchors().1.1 as int].len(),
        ensures
            final(self).wf(),
            final(self).buf@ == delete_range_spec(
                old(self).buf@,
                old(self).spec_anchors().0.0 as int,
                old(self).spec_anchors().0.1 as int,
                old(self).spec_anchors().1.0 as int,
                old(self).spec_anchors().1.1 as int,
            ),
            final(self).cx == old(self).spec_anchors().0.0,
            final(self).cy == old(self).spec_anchors().0.1,
            final(self).text_selected == old(self).text_selected,
            final(self).buf.spec_meta() == old(self).buf.spec_meta(),
            final(self).rowoff == old(self).rowoff,
            final(self).coloff == old(self).coloff,
            final(self).status_msg == old(self).status_msg,
            final(self).mode == old(self).mode,
            final(self).dirty == old(self).dirty,
            final(self).anchor_start == old(self).anchor_start,
            final(self).anchor_end == old(self).anchor_end,
    {
        let (anchor_start, anchor_end) = self.get_anchors();
        let end = self.buf.delete_selection(anchor_start, anchor_end);
        proof {
            crate::laws::lemma_delete_range_inverse(
                old(self).buf@,
                anchor_start.0 as int,
                anchor_start.1 as int,
                anchor_end.0 as int,
                anchor_end.1 as int,
            );
        }
        self.set_cursor(end.0, end.1);
        proof {
            assert(self.cx == anchor_start.0 && self.cy == anchor_start.1);
        }
    }

    /// The text of the normalized selection range, rows joined by `'\n'`.
    pub fn get_selection(&self) -> (r: Vec<char>)
        requires
            self.spec_anchors().1.1 < self@.len(),
            self.spec_anchors().0.0 <= self@[self.spec_anchors().0.1 as int].len(),
            self.spec_anchors().1.0 <= self@[self.spec_anchors().1.1 as int].len(),
        ensures
            r@ == selection_spec(
                self@,
                self.spec_anchors().0.0 as int,
                self.spec_anchors().0.1 as int,
                self.spec_anchors().1.0 as int,
                self.spec_anchors().1.1 as int,
            ),
    {
        let (anchor_start, anchor_end) = self.get_anchors();
        self.buf.get_selection(anchor_start, anchor_end)
    }

    /// Moves the cursor to the given position, clamped to the buffer.
    pub fn set_cursor(&mut self, x: usize, y: usize)
        requires
            old(self).buf.wf(),
        ensures
            final(self).wf(),
            (final(self).cx as int, final(self).cy as int) == clamp_spec(
                old(self).buf@,
                x as int,
                y as int,
            ),
            final(self).buf == old(self).buf,
            final(self).text_selected == old(self).text_selected,
            final(self).anchor_start == old(self).anchor_start,
            final(self).anchor_end == old(self).anchor_end,
            final(self).status_msg == old(self).status_msg,
            final(self).mode == old(self).mode,
            final(self).dirty == old(self).dirty,
            final(self).rowoff == old(self).rowoff,
            final(self).coloff == old(self).coloff,
    {
        let clamped = self.buf.clamp_to_bounds((x, y));
        self.cx = clamped.0;
        self.cy = clamped.1;
    }

    /// The selection anchors in row-major order; what `get_anchors` returns.
    pub open spec fn spec_anchors(&self) -> ((usize, usize), (usize, usize)) {
        if self.anchor_end.1 < self.anchor_start.1 || (self.anchor_start.1 == self.anchor_end.1
            && self.anchor_start.0 > self.anchor_end.0) {
            (self.anchor_end, self.anchor_start)
        } else {
            (self.anchor_start, self.anchor_end)
        }
    }

    /// Returns the selection anchors in row-major order: the first returned
    /// position is never after the second, whichever anchor was recorded
    /// first.
    pub fn get_anchors(&self) -> (r: ((usize, usize), (usize, usize)))
        ensures
            r == self.spec_anchors(),
            !crate::coord::spec_after(r.0, r.1),
    {
        let anchor_start: (usize, usize);
        let anchor_end: (usize, usize);
        // The start should always be before the end; swap if necessary.
        if (self.anchor_end.1 < self.anchor_start.1) || (self.anchor_start.1 == self.anchor_end.1
            && self.anchor_start.0 > self.anchor_end.0) {
            anchor_start = self.anchor_end;
            anchor_end = self.anchor_start;
        } else {
            anchor_start = self.anchor_start;
            anchor_end = self.anchor_end;
        }
        (anchor_start, anchor_end)
    }

    /// The contents of row `row_idx`.
    pub fn get_row_contents(&self, row_idx: usize) -> (r: &Vec<char>)
        requires
            row_idx < self@.len(),
        ensures
            r@ == self@[row_idx as int],
    {
        self.buf.get_row_contents(row_idx)
    }

    /// The length of the cursor's row, or zero past the end.
    pub fn cur_row_len(&self) -> (n: usize)
        ensures
            n == crate::edit::row_len_at(self@, self.cy as int),
    {
        self.buf.row_len(self.cy)
    }

    /// The length of row `row_idx`, or zero past the end.
    pub fn row_len(&self, row_idx: usize) -> (n: usize)
        ensures
            n == crate::edit::row_len_at(self@, row_idx as int),
    {
        self.buf.row_len(row_idx)
    }


    /// The exact bytes a save writes: every row followed by a newline (the
    /// empty buffer saves as an empty file).
    pub fn save_content(&self) -> (r: Vec<char>)
        ensures
            r@ == save_content_spec(self@),
    {
        let n = self.buf.num_rows();
        let mut acc: Vec<char> = Vec::new();
        let mut k: usize = 0;
        while k < n
            invariant
                k <= n,
                n == self@.len(),
                acc@ == save_content_spec(self@.take(k as int)),
            decreases n - k,
        {
            let row = self.buf.get_row_contents(k);
            crate::text::extend_chars(&mut acc, row);
            acc.push('\n');
            proof {
                if k == 0 {
                    assert(self@.take(1).len() == 1);
                    assert(crate::text::join_lines(self@.take(1)) == self@.take(1)[0]);
                    assert(acc@ =~= save_content_spec(self@.take(1)));
                } else {
                    crate::text::lemma_join_lines_push(self@.take(k as int), self@[k as int]);
                    assert(self@.take(k as int).push(self@[k as int]) =~= self@.take(k + 1));
                    assert(acc@ =~= save_content_spec(self@.take(k + 1)));
                }
            }
            k = k + 1;
        }
        proof {
            assert(self@.take(n as int) =~= self@);
        }
        acc
    }

    /// The number of rows in the buffer.
    pub fn num_rows(&self) -> (n: usize)
        ensures
            n == self@.len(),
    {
        self.buf.num_rows()
    }
}

impl View for Model {
    type V = Seq<Seq<char>>;

    open spec fn view(&self) -> Seq<Seq<char>> {
        self.buf@
    }
}

/// One past the position of the last path separator, or zero if there is
/// none: where a path's final segment begins.
pub open spec fn last_sep_end(p: Seq<char>) -> int
    decreases p.len(),
{
    if p.len() == 0 {
        0
    } else if p.last() == '/' {
        p.len() as int
    } else {
        last_sep_end(p.drop_last())
    }
}

/// The position of the last dot, or minus one if there is none.
pub open spec fn last_dot(s: Seq<char>) -> int
    decreases s.len(),
{
    if s.len() == 0 {
        -1
    } else if s.last() == '.' {
        s.len() - 1
    } else {
        last_dot(s.drop_last())
    }
}

/// The last dot lies within the name, or there is none.
pub proof fn lemma_last_dot_bound(s: Seq<char>)
    ensures
        -1 <= last_dot(s) < s.len(),
    decreases s.len(),
{
    if s.len() > 0 && s.last() != '.' {
        lemma_last_dot_bound(s.drop_last());
    }
}

/// The extension of a file name: whatever follows its last dot, empty if
/// the name has none.
pub open spec fn ext_of(name: Seq<char>) -> Seq<char> {
    if last_dot(name) >= 0 {
        name.skip(last_dot(name) + 1)
    } else {
        Seq::empty()
    }
}

/// The bytes a save writes for the given rows: each row with a trailing
/// newline.
pub open spec fn save_content_spec(rows: Seq<Seq<char>>) -> Seq<char> {
    if rows.len() == 0 {
        Seq::empty()
    } else {
        crate::text::join_lines(rows) + seq!['\n']
    }
}

} // verus!
