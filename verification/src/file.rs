//! The row-oriented text buffer.
//!
//! A `FileState` is an ordered sequence of rows. Each row stores its own
//! index, and the buffer maintains the invariant that every row's stored
//! index equals its position, and that no row holds a `'\n'` (newlines are
//! row separators only). Positions are `(column, row)` pairs; a column may
//! equal the row length (the cursor just past the last character).

use vstd::prelude::*;

use crate::text::{line_wf, lines_wf, split_lines, join_lines, split_chars, copy_range,
    extend_chars};
use crate::text::{lemma_split_lines_len, lemma_split_lines_wf, lemma_split_lines_prepend,
    lemma_split_lines_append, lemma_join_lines_push, lemma_split_lines_count,
    lemma_join_split};

verus! {

/// One text row: its current position and its characters.
pub struct Erow {
    idx: usize,
    contents: Vec<char>,
}

/// A row-oriented text buffer with its file name metadata.
pub struct FileState {
    filename: Vec<char>,
    path: Vec<char>,
    ext: Vec<char>,
    rows: Vec<Erow>,
}

impl View for FileState {
    type V = Seq<Seq<char>>;

    closed spec fn view(&self) -> Seq<Seq<char>> {
        self.rows@.map_values(|r: Erow| r.contents@)
    }
}

/// The rows after deleting `n` rows starting at position `idx`.
pub open spec fn delete_rows_spec(rows: Seq<Seq<char>>, idx: int, n: int) -> Seq<Seq<char>> {
    rows.take(idx) + rows.skip(idx + n)
}

/// The rows after splitting row `row` at column `col`: the head stays, the
/// tail becomes the following row.
pub open spec fn insert_newline_spec(rows: Seq<Seq<char>>, col: int, row: int) -> Seq<Seq<char>> {
    rows.take(row) + seq![rows[row].take(col), rows[row].skip(col)] + rows.skip(row + 1)
}

/// The rows after inserting character `c` at `(col, row)`: a column past the
/// row end is clamped to it, and a row equal to the row count appends a new
/// empty row first.
pub open spec fn insert_char_spec(rows: Seq<Seq<char>>, col: int, row: int, c: char) -> Seq<
    Seq<char>,
> {
    let rows1 = if row == rows.len() {
        rows.push(Seq::empty())
    } else {
        rows
    };
    let r = rows1[row];
    let at = if col <= r.len() {
        col
    } else {
        r.len() as int
    };
    rows1.update(row, r.insert(at, c))
}

/// The rows after splicing `text` (possibly holding newlines) into the
/// buffer at `(col, row)`.
pub open spec fn insert_string_spec(
    rows: Seq<Seq<char>>,
    col: int,
    row: int,
    text: Seq<char>,
) -> Seq<Seq<char>> {
    rows.take(row) + split_lines(rows[row].take(col) + text + rows[row].skip(col)) + rows.skip(
        row + 1,
    )
}

/// The position just past the spliced text: on the same row if `text` had no
/// newline, else at the end of its last segment.
pub open spec fn insert_string_coord(
    rows: Seq<Seq<char>>,
    col: int,
    row: int,
    text: Seq<char>,
) -> (int, int) {
    let segs = split_lines(text);
    if segs.len() == 1 {
        (col + text.len(), row)
    } else {
        (segs.last().len() as int, row + segs.len() - 1)
    }
}

/// The rows after deleting the half-open range `[(s_col, s_row), (e_col, e_row))`
/// in row-major order: the head of the start row is joined with the tail of
/// the end row and the rows in between disappear.
pub open spec fn delete_range_spec(
    rows: Seq<Seq<char>>,
    s_col: int,
    s_row: int,
    e_col: int,
    e_row: int,
) -> Seq<Seq<char>> {
    rows.take(s_row) + seq![rows[s_row].take(s_col) + rows[e_row].skip(e_col)] + rows.skip(
        e_row + 1,
    )
}

/// The text of the half-open range `[(s_col, s_row), (e_col, e_row))`, rows
/// joined by `'\n'`.
pub open spec fn selection_spec(
    rows: Seq<Seq<char>>,
    s_col: int,
    s_row: int,
    e_col: int,
    e_row: int,
) -> Seq<char> {
    if s_row == e_row {
        rows[e_row].subrange(s_col, e_col)
    } else {
        join_lines(
            seq![rows[s_row].skip(s_col)] + rows.subrange(s_row + 1, e_row) + seq![
                rows[e_row].take(e_col),
            ],
        )
    }
}

/// The rows and the resulting cursor after deleting the character just
/// before `(col, row)`; the no-op cases leave both unchanged.
pub open spec fn delete_char_spec(rows: Seq<Seq<char>>, col: int, row: int) -> Seq<Seq<char>> {
    if row == rows.len() {
        rows
    } else if col == 0 && row == 0 {
        rows
    } else if col > 0 {
        if col > rows[row].len() {
            rows
        } else {
            rows.update(row, rows[row].remove(col - 1))
        }
    } else {
        rows.update(row - 1, rows[row - 1] + rows[row]).remove(row)
    }
}

/// The cursor position after `delete_char_spec`.
pub open spec fn delete_char_coord(rows: Seq<Seq<char>>, col: int, row: int) -> (int, int) {
    if row == rows.len() {
        (col, row)
    } else if col == 0 && row == 0 {
        (0, 0)
    } else if col > 0 {
        if col > rows[row].len() {
            (col, row)
        } else {
            (col - 1, row)
        }
    } else {
        (rows[row - 1].len() as int, row - 1)
    }
}

/// A position clamped to the buffer: the row to the row count, then the
/// column to that row's length (zero past the last row).
pub open spec fn clamp_spec(rows: Seq<Seq<char>>, col: int, row: int) -> (int, int) {
    let r = if row > rows.len() {
        rows.len() as int
    } else {
        row
    };
    let rowlen = if r < rows.len() {
        rows[r].len() as int
    } else {
        0int
    };
    let c = if col > rowlen {
        rowlen
    } else {
        col
    };
    (c, r)
}

/// The character the position `(col, row)` points at: the one just before
/// the column, or `'\n'` at a column of zero (a row boundary), or `'\0'`
/// past the row end.
pub open spec fn get_char_spec(rows: Seq<Seq<char>>, col: int, row: int) -> char {
    if col == 0 {
        '\n'
    } else if col - 1 < rows[row].len() {
        rows[row][col - 1]
    } else {
        '\0'
    }
}

impl FileState {
    /// The file name, path and extension, as one value, so that contracts
    /// can state that an operation leaves the metadata unchanged.
    pub closed spec fn spec_meta(&self) -> (Seq<char>, Seq<char>, Seq<char>) {
        (self.filename@, self.path@, self.ext@)
    }

    /// The name of the file this buffer was loaded from, empty if none.
    pub fn filename(&self) -> (r: &Vec<char>)
        ensures
            r@ == self.spec_meta().0,
    {
        &self.filename
    }

    /// The path the buffer is saved to, as text; empty if none.
    pub fn path(&self) -> (r: &Vec<char>)
        ensures
            r@ == self.spec_meta().1,
    {
        &self.path
    }

    /// The file name extension, empty if none.
    pub fn ext(&self) -> (r: &Vec<char>)
        ensures
            r@ == self.spec_meta().2,
    {
        &self.ext
    }

    /// Records the file name, path and extension for this buffer.
    pub fn set_meta(&mut self, filename: Vec<char>, path: Vec<char>, ext: Vec<char>)
        ensures
            final(self).spec_meta() == (filename@, path@, ext@),
            final(self)@ == old(self)@,
            final(self).wf() == old(self).wf(),
            final(self).spec_indices() == old(self).spec_indices(),
    {
        self.filename = filename;
        self.path = path;
        self.ext = ext;
    }

    /// The stored index of each row, in buffer order.
    pub closed spec fn spec_indices(&self) -> Seq<int> {
        self.rows@.map_values(|r: Erow| r.idx as int)
    }

    /// Every row's stored index equals its position, and no row holds a
    /// newline character.
    pub open spec fn wf(&self) -> bool {
        &&& self.spec_indices().len() == self@.len()
        &&& forall|i: int| 0 <= i < self.spec_indices().len() ==> #[trigger] self.spec_indices()[i]
            == i
        &&& lines_wf(self@)
    }

    /// Relates the stored indices, the view and the underlying rows
    /// pointwise, so that loop proofs can speak of single rows.
    proof fn lemma_index_bridge(&self)
        ensures
            self.spec_indices().len() == self.rows@.len(),
            self@.len() == self.rows@.len(),
            forall|j: int|
                0 <= j < self.rows@.len() ==> (#[trigger] self.rows@[j]).idx as int
                    == self.spec_indices()[j],
            forall|j: int|
                0 <= j < self.rows@.len() ==> (#[trigger] self.rows@[j]).contents@ == self@[j],
    {
    }

    /// Creates an empty buffer with no rows and no file name.
    pub fn new() -> (r: FileState)
        ensures
            r.wf(),
            r@ == Seq::<Seq<char>>::empty(),
            r.spec_meta() == (Seq::<char>::empty(), Seq::<char>::empty(), Seq::<char>::empty()),
    {
        let r = FileState {
            filename: Vec::new(),
            path: Vec::new(),
            ext: Vec::new(),
            rows: Vec::new(),
        };
        proof {
            assert(r@ =~~= Seq::<Seq<char>>::empty());
        }
        r
    }

    /// The number of rows in the buffer.
    pub fn num_rows(&self) -> (n: usize)
        ensures
            n == self@.len(),
    {
        self.rows.len()
    }

    /// The contents of row `row_idx`.
    pub fn get_row_contents(&self, row_idx: usize) -> (r: &Vec<char>)
        requires
            row_idx < self@.len(),
        ensures
            r@ == self@[row_idx as int],
    {
        &self.rows[row_idx].contents
    }

    /// The length of row `row_idx`, or zero for a row past the end.
    pub fn row_len(&self, row_idx: usize) -> (n: usize)
        ensures
            n == if row_idx < self@.len() {
                self@[row_idx as int].len()
            } else {
                0
            },
    {
        let num_rows = self.num_rows();
        if row_idx >= num_rows {
            0
        } else {
            self.rows[row_idx].contents.len()
        }
    }

    /// Appends `line` as a new last row.
    pub fn append_row(&mut self, line: Vec<char>)
        requires
            old(self).wf(),
            line_wf(line@),
        ensures
            final(self).wf(),
            final(self)@ == old(self)@.push(line@),
            final(self).spec_meta() == old(self).spec_meta(),
    {
        let num_rows = self.rows.len();
        let row = Erow { idx: num_rows, contents: line };
        self.rows.push(row);
        proof {
            assert(self@ =~~= old(self)@.push(line@));
            old(self).lemma_index_bridge();
            self.lemma_index_bridge();
            assert(forall|i: int|
                0 <= i < self.spec_indices().len() ==> #[trigger] self.spec_indices()[i] == i);
        }
    }

    /// Inserts `line` as a new row at position `idx`, shifting every later
    /// row down by one; a position past the end is a no-op.
    pub fn insert_row(&mut self, idx: usize, line: &Vec<char>)
        requires
            old(self).wf(),
            line_wf(line@),
        ensures
            final(self).wf(),
            final(self)@ == if idx <= old(self)@.len() {
                old(self)@.insert(idx as int, line@)
            } else {
                old(self)@
            },
            final(self).spec_meta() == old(self).spec_meta(),
    {
        let num_rows = self.rows.len();
        if idx > num_rows {
            return ;
        }
        let row = Erow { idx, contents: line.clone() };
        proof {
            old(self).lemma_index_bridge();
        }
        let mut i: usize = idx;
        while i < num_rows
            invariant
                idx <= i <= num_rows,
                num_rows == self.rows@.len(),
                self@ == old(self)@,
                self.spec_meta() == old(self).spec_meta(),
                lines_wf(self@),
                forall|j: int| 0 <= j < idx ==> (#[trigger] self.rows@[j]).idx == j,
                forall|j: int| idx <= j < i ==> (#[trigger] self.rows@[j]).idx == j + 1,
                forall|j: int| i <= j < num_rows ==> (#[trigger] self.rows@[j]).idx == j,
            decreases num_rows - i,
        {
            let new_idx = self.rows[i].idx + 1;
            self.rows[i].idx = new_idx;
            proof {
                assert(self@ =~~= old(self)@);
            }
            i = i + 1;
        }
        assert(line@ == row.contents@);
        self.rows.insert(idx, row);
        proof {
            assert(self@ =~~= old(self)@.insert(idx as int, line@));
            self.lemma_index_bridge();
            assert(forall|i: int|
                0 <= i < self.spec_indices().len() ==> #[trigger] self.spec_indices()[i] == i);
        }
    }

    /// Removes the row at `row_idx`, shifting every later row up by one.
    pub fn delete_row(&mut self, row_idx: usize)
        requires
            old(self).wf(),
            row_idx < old(self)@.len(),
        ensures
            final(self).wf(),
            final(self)@ == old(self)@.remove(row_idx as int),
            final(self).spec_meta() == old(self).spec_meta(),
    {
        self.rows.remove(row_idx);
        let num_rows = self.rows.len();
        let mut i: usize = row_idx;
        proof {
            assert(self@ =~~= old(self)@.remove(row_idx as int));
            old(self).lemma_index_bridge();
            self.lemma_index_bridge();
        }
        while i < num_rows
            invariant
                row_idx <= i <= num_rows,
                num_rows == self.rows@.len(),
                self@ == old(self)@.remove(row_idx as int),
                self.spec_meta() == old(self).spec_meta(),
                forall|j: int| 0 <= j < row_idx ==> (#[trigger] self.rows@[j]).idx == j,
                forall|j: int| row_idx <= j < i ==> (#[trigger] self.rows@[j]).idx == j,
                forall|j: int| i <= j < num_rows ==> (#[trigger] self.rows@[j]).idx == j + 1,
            decreases num_rows - i,
        {
            let new_idx = self.rows[i].idx - 1;
            self.rows[i].idx = new_idx;
            proof {
                assert(self@ =~~= old(self)@.remove(row_idx as int));
            }
            i = i + 1;
        }
        proof {
            self.lemma_index_bridge();
            assert(forall|i: int|
                0 <= i < self.spec_indices().len() ==> #[trigger] self.spec_indices()[i] == i);
            assert(lines_wf(self@));
        }
    }

    /// Removes `num_removed` consecutive rows starting at `row_idx`.
    pub fn delete_rows(&mut self, row_idx: usize, num_removed: usize)
        requires
            old(self).wf(),
            row_idx + num_removed <= old(self)@.len(),
        ensures
            final(self).wf(),
            final(self)@ == delete_rows_spec(old(self)@, row_idx as int, num_removed as int),
            final(self).spec_meta() == old(self).spec_meta(),
    {
        let mut k: usize = 0;
        proof {
            assert(self@ =~~= old(self)@.take(row_idx as int) + old(self)@.skip(row_idx as int));
        }
        while k < num_removed
            invariant
                k <= num_removed,
                old(self).wf(),
                old(self)@.len() >= row_idx + num_removed,
                self.wf(),
                self@.len() == old(self)@.len() - k,
                self@ == old(self)@.take(row_idx as int) + old(self)@.skip(row_idx + k),
                self.spec_meta() == old(self).spec_meta(),
            decreases num_removed - k,
        {
            self.delete_row(row_idx);
            proof {
                assert(self@ =~~= old(self)@.take(row_idx as int) + old(self)@.skip(
                    row_idx + k + 1,
                ));
            }
            k = k + 1;
        }
    }

    /// Splits the row at `loc` in two: the characters from `loc.0` onward
    /// become a new following row. A column of zero inserts an empty row
    /// before, a column at the row end an empty row after. Returns the
    /// position of the start of the new row.
    pub fn insert_newline(&mut self, loc: (usize, usize)) -> (end: (usize, usize))
        requires
            old(self).wf(),
            loc.1 < old(self)@.len(),
            loc.0 <= old(self)@[loc.1 as int].len(),
        ensures
            final(self).wf(),
            final(self)@ == insert_newline_spec(old(self)@, loc.0 as int, loc.1 as int),
            end.0 == 0 && end.1 == loc.1 + 1,
            final(self).spec_meta() == old(self).spec_meta(),
    {
        let num_rows = self.rows.len();
        let cur_row_len = self.rows[loc.1].contents.len();
        if loc.0 == 0 {
            let empty: Vec<char> = Vec::new();
            self.insert_row(loc.1, &empty);
            proof {
                assert(self@ =~~= insert_newline_spec(old(self)@, loc.0 as int, loc.1 as int));
            }
        } else if loc.0 == cur_row_len {
            let empty: Vec<char> = Vec::new();
            self.insert_row(loc.1 + 1, &empty);
            proof {
                assert(self@ =~~= insert_newline_spec(old(self)@, loc.0 as int, loc.1 as int));
            }
        } else {
            let leftover = copy_range(&self.rows[loc.1].contents, loc.0, cur_row_len);
            self.rows[loc.1].contents.truncate(loc.0);
            proof {
                old(self).lemma_index_bridge();
                self.lemma_index_bridge();
                assert(self@ =~~= old(self)@.update(
                    loc.1 as int,
                    old(self)@[loc.1 as int].take(loc.0 as int),
                ));
                assert(self.wf());
            }
            self.insert_row(loc.1 + 1, &leftover);
            proof {
                assert(self@ =~~= insert_newline_spec(old(self)@, loc.0 as int, loc.1 as int));
            }
        }
        (0, loc.1 + 1)
    }

    /// Inserts the character `c` at `loc`, clamping the column to the row
    /// length; a row one past the last appends a new empty row first.
    /// Returns the position just after the inserted character.
    pub fn insert_char(&mut self, c: char, loc: (usize, usize)) -> (end: (usize, usize))
        requires
            old(self).wf(),
            loc.1 <= old(self)@.len(),
            loc.0 < usize::MAX || (loc.1 < old(self)@.len() && loc.0 <= old(self)@[
                loc.1 as int
            ].len()),
            c != '\n',
        ensures
            final(self).wf(),
            final(self)@ == insert_char_spec(old(self)@, loc.0 as int, loc.1 as int, c),
            end.0 == loc.0 + 1 && end.1 == loc.1,
            final(self).spec_meta() == old(self).spec_meta(),
    {
        let num_rows = self.rows.len();
        if loc.1 == num_rows {
            let empty: Vec<char> = Vec::new();
            self.insert_row(num_rows, &empty);
        }
        let ghost rows1 = self@;
        let cur_len = self.rows[loc.1].contents.len();
        let mut at = loc.0;
        if at > cur_len {
            at = cur_len;
        }
        proof {
            self.lemma_index_bridge();
        }
        self.rows[loc.1].contents.insert(at, c);
        proof {
            old(self).lemma_index_bridge();
            self.lemma_index_bridge();
            assert(self@ =~~= insert_char_spec(old(self)@, loc.0 as int, loc.1 as int, c));
            assert(forall|i: int|
                0 <= i < self.spec_indices().len() ==> #[trigger] self.spec_indices()[i] == i);
            assert(line_wf(self@[loc.1 as int]));
            assert(lines_wf(self@));
        }
        let new_len = self.rows[loc.1].contents.len();
        proof {
            assert(new_len == rows1[loc.1 as int].len() + 1);
            assert(loc.0 <= at ==> loc.0 < new_len);
        }
        (loc.0 + 1, loc.1)
    }

    /// Deletes the character just before `loc`, joining the row with the
    /// previous one at a column of zero; the position `(0, 0)`, a row past
    /// the end, and a column past the row end are no-ops. Returns the
    /// resulting cursor position.
    pub fn delete_char(&mut self, loc: (usize, usize)) -> (end: (usize, usize))
        requires
            old(self).wf(),
            loc.1 <= old(self)@.len(),
        ensures
            final(self).wf(),
            final(self)@ == delete_char_spec(old(self)@, loc.0 as int, loc.1 as int),
            (end.0 as int, end.1 as int) == delete_char_coord(old(self)@, loc.0 as int, loc.1 as int),
            final(self).spec_meta() == old(self).spec_meta(),
    {
        let mut loc = loc;
        let num_rows = self.rows.len();

        if loc.1 == num_rows {
            return loc;
        }
        if loc.0 == 0 && loc.1 == 0 {
            return loc;
        }

        if loc.0 > 0 {
            let cur_len = self.rows[loc.1].contents.len();
            if loc.0 > cur_len {
                return loc;
            }
            proof {
                self.lemma_index_bridge();
            }
            self.rows[loc.1].contents.remove(loc.0 - 1);
            loc.0 = loc.0 - 1;
            proof {
                old(self).lemma_index_bridge();
                self.lemma_index_bridge();
                assert(self@ =~~= delete_char_spec(old(self)@, loc.0 + 1, loc.1 as int));
                assert(forall|i: int|
                    0 <= i < self.spec_indices().len() ==> #[trigger] self.spec_indices()[i] == i);
                assert(lines_wf(self@));
            }
        } else {
            let cur_row_len = self.rows[loc.1].contents.len();
            let cur_row = copy_range(&self.rows[loc.1].contents, 0, cur_row_len);
            proof {
                assert(cur_row@ =~= old(self)@[loc.1 as int]);
                self.lemma_index_bridge();
            }
            let prev_len = self.rows[loc.1 - 1].contents.len();
            extend_chars(&mut self.rows[loc.1 - 1].contents, &cur_row);
            proof {
                old(self).lemma_index_bridge();
                self.lemma_index_bridge();
                assert(self@ =~~= old(self)@.update(
                    loc.1 - 1,
                    old(self)@[loc.1 - 1] + old(self)@[loc.1 as int],
                ));
                assert(forall|i: int|
                    0 <= i < self.spec_indices().len() ==> #[trigger] self.spec_indices()[i] == i);
                assert(lines_wf(self@));
            }
            loc.0 = prev_len;
            self.delete_row(loc.1);
            loc.1 = loc.1 - 1;
            proof {
                assert(self@ =~~= delete_char_spec(old(self)@, 0, loc.1 + 1));
            }
        }
        loc
    }

    /// Splices `contents` (possibly holding newlines) into the buffer at
    /// `loc` and returns the position just past the spliced text.
    pub fn insert_string(&mut self, contents: &Vec<char>, loc: (usize, usize)) -> (end: (
        usize,
        usize,
    ))
        requires
            old(self).wf(),
            loc.1 < old(self)@.len(),
            loc.0 <= old(self)@[loc.1 as int].len(),
        ensures
            final(self).wf(),
            final(self)@ == insert_string_spec(old(self)@, loc.0 as int, loc.1 as int, contents@),
            (end.0 as int, end.1 as int) == insert_string_coord(
                old(self)@,
                loc.0 as int,
                loc.1 as int,
                contents@,
            ),
            final(self).spec_meta() == old(self).spec_meta(),
    {
        let ghost orig = old(self)@;
        let ghost before_s = orig[loc.1 as int].take(loc.0 as int);
        let ghost after_s = orig[loc.1 as int].skip(loc.0 as int);
        let ghost segs_s = split_lines(contents@);
        let ghost buffer_s = split_lines(before_s + contents@ + after_s);

        let segs = split_chars(contents);
        let cur_row_len = self.rows[loc.1].contents.len();
        let before = copy_range(&self.rows[loc.1].contents, 0, loc.0);
        let after = copy_range(&self.rows[loc.1].contents, loc.0, cur_row_len);

        proof {
            lemma_split_lines_len(contents@);
            lemma_split_lines_wf(contents@);
            assert(line_wf(before_s));
            assert(line_wf(after_s));
            lemma_split_lines_append(contents@, after_s);
            lemma_split_lines_prepend(before_s, contents@ + after_s);
            assert(before_s + (contents@ + after_s) =~= before_s + contents@ + after_s);
            lemma_split_lines_count(contents@);
            lemma_join_split(contents@);
            // The spliced pieces: the first extended by the head of the row,
            // the last by its tail.
            assert(buffer_s.len() == segs_s.len());
            assert(forall|j: int|
                0 <= j < segs_s.len() ==> segs@.map_values(|p: Vec<char>| p@)[j] == #[trigger]
                    segs@[j]@);
        }

        let k = segs.len();
        let last_len = segs[k - 1].len();

        // The row itself becomes the first piece, prefixed by its old head.
        let mut first = before;
        extend_chars(&mut first, &segs[0]);
        if k == 1 {
            extend_chars(&mut first, &after);
        }
        proof {
            self.lemma_index_bridge();
        }
        self.rows[loc.1].contents = first;
        proof {
            old(self).lemma_index_bridge();
            self.lemma_index_bridge();
            assert(self@ =~~= orig.update(loc.1 as int, self@[loc.1 as int]));
            assert(forall|i: int|
                0 <= i < self.spec_indices().len() ==> #[trigger] self.spec_indices()[i] == i);
            assert(lines_wf(self@));
            assert(self.wf());
        }

        if k == 1 {
            let new_row_len = self.rows[loc.1].contents.len();
            proof {
                assert(segs_s[0] == contents@);
                assert(self@[loc.1 as int] =~= before_s + contents@ + after_s);
                assert(buffer_s =~~= seq![before_s + contents@ + after_s]);
                assert(self@ =~~= insert_string_spec(orig, loc.0 as int, loc.1 as int, contents@));
                assert(new_row_len == loc.0 + contents@.len() + after_s.len());
            }
            return (loc.0 + contents.len(), loc.1);
        }

        // The remaining pieces become new rows after it, the last suffixed
        // by the old tail of the row.
        proof {
            assert(orig.len() == old(self).rows@.len());
            assert(self@ =~~= orig.take(loc.1 as int) + seq![before_s + segs_s[0]]
                + segs_s.subrange(1, 1) + orig.skip(loc.1 + 1));
        }
        let mut j: usize = 1;
        while j < k - 1
            invariant
                1 <= j <= k - 1,
                k == segs_s.len(),
                segs@.map_values(|p: Vec<char>| p@) == segs_s,
                lines_wf(segs_s),
                loc.1 < orig.len(),
                self.wf(),
                self.spec_meta() == old(self).spec_meta(),
                self@ == orig.take(loc.1 as int) + seq![before_s + segs_s[0]] + segs_s.subrange(
                    1,
                    j as int,
                ) + orig.skip(loc.1 + 1),
            decreases k - j,
        {
            let nr = self.rows.len();
            proof {
                assert(segs@[j as int]@ == segs_s[j as int]);
                assert(line_wf(segs@[j as int]@));
                assert(self@.len() == orig.len() + j - 1);
                assert(loc.1 + j <= nr);
            }
            self.insert_row(loc.1 + j, &segs[j]);
            proof {
                assert(self@ =~~= orig.take(loc.1 as int) + seq![before_s + segs_s[0]]
                    + segs_s.subrange(1, j + 1) + orig.skip(loc.1 + 1));
            }
            j = j + 1;
        }

        let mut last = copy_range(&segs[k - 1], 0, last_len);
        extend_chars(&mut last, &after);
        let nr2 = self.rows.len();
        proof {
            assert(line_wf(last@));
            assert(self@.len() == orig.len() + k - 2);
            assert(loc.1 + (k - 1) <= nr2);
        }
        let er = loc.1 + (k - 1);
        self.insert_row(er, &last);
        proof {
            assert(buffer_s[0] == before_s + segs_s[0]);
            assert(buffer_s.last() == segs_s.last() + after_s);
            assert(self@ =~~= insert_string_spec(orig, loc.0 as int, loc.1 as int, contents@));
        }
        (last_len, er)
    }

    /// Deletes the half-open row-major range `[anchor_start, anchor_end)`:
    /// the head of the start row is joined with the tail of the end row and
    /// the rows in between are removed. Returns the start position.
    pub fn delete_selection(
        &mut self,
        anchor_start: (usize, usize),
        anchor_end: (usize, usize),
    ) -> (end: (usize, usize))
        requires
            old(self).wf(),
            anchor_start.1 <= anchor_end.1,
            anchor_start.1 == anchor_end.1 ==> anchor_start.0 <= anchor_end.0,
            anchor_end.1 < old(self)@.len(),
            anchor_start.0 <= old(self)@[anchor_start.1 as int].len(),
            anchor_end.0 <= old(self)@[anchor_end.1 as int].len(),
        ensures
            final(self).wf(),
            final(self)@ == delete_range_spec(
                old(self)@,
                anchor_start.0 as int,
                anchor_start.1 as int,
                anchor_end.0 as int,
                anchor_end.1 as int,
            ),
            end == anchor_start,
            final(self).spec_meta() == old(self).spec_meta(),
    {
        let ghost orig = old(self)@;
        let num_rows = self.rows.len();
        let end_row_len = self.rows[anchor_end.1].contents.len();
        let end_tail = copy_range(&self.rows[anchor_end.1].contents, anchor_end.0, end_row_len);
        proof {
            self.lemma_index_bridge();
        }
        self.rows[anchor_start.1].contents.truncate(anchor_start.0);
        proof {
            old(self).lemma_index_bridge();
            self.lemma_index_bridge();
            assert(self@ =~~= orig.update(
                anchor_start.1 as int,
                orig[anchor_start.1 as int].take(anchor_start.0 as int),
            ));
            assert(forall|i: int|
                0 <= i < self.spec_indices().len() ==> #[trigger] self.spec_indices()[i] == i);
            assert(lines_wf(self@));
        }
        proof {
            self.lemma_index_bridge();
        }
        extend_chars(&mut self.rows[anchor_start.1].contents, &end_tail);
        proof {
            old(self).lemma_index_bridge();
            self.lemma_index_bridge();
            assert(self@ =~~= orig.update(
                anchor_start.1 as int,
                orig[anchor_start.1 as int].take(anchor_start.0 as int) + orig[
                    anchor_end.1 as int
                ].skip(anchor_end.0 as int),
            ));
            assert(forall|i: int|
                0 <= i < self.spec_indices().len() ==> #[trigger] self.spec_indices()[i] == i);
            assert(lines_wf(self@));
            assert(self.wf());
        }

        let num_deleted = anchor_end.1 - anchor_start.1;
        self.delete_rows(anchor_start.1 + 1, num_deleted);
        proof {
            assert(self@ =~~= delete_range_spec(
                orig,
                anchor_start.0 as int,
                anchor_start.1 as int,
                anchor_end.0 as int,
                anchor_end.1 as int,
            ));
        }
        anchor_start
    }

    /// Returns the text of the half-open row-major range
    /// `[anchor_start, anchor_end)`, rows joined by `'\n'`.
    pub fn get_selection(&self, anchor_start: (usize, usize), anchor_end: (usize, usize)) -> (r:
        Vec<char>)
        requires
            anchor_start.1 <= anchor_end.1,
            anchor_start.1 == anchor_end.1 ==> anchor_start.0 <= anchor_end.0,
            anchor_end.1 < self@.len(),
            anchor_start.0 <= self@[anchor_start.1 as int].len(),
            anchor_end.0 <= self@[anchor_end.1 as int].len(),
        ensures
            r@ == selection_spec(
                self@,
                anchor_start.0 as int,
                anchor_start.1 as int,
                anchor_end.0 as int,
                anchor_end.1 as int,
            ),
    {
        if anchor_start.1 == anchor_end.1 {
            let r = copy_range(&self.rows[anchor_end.1].contents, anchor_start.0, anchor_end.0);
            proof {
                self.lemma_index_bridge();
            }
            r
        } else {
            let ghost tail_s = self@[anchor_start.1 as int].skip(anchor_start.0 as int);
            let start_len = self.rows[anchor_start.1].contents.len();
            let mut contents = copy_range(
                &self.rows[anchor_start.1].contents,
                anchor_start.0,
                start_len,
            );
            contents.push('\n');
            proof {
                self.lemma_index_bridge();
                assert(contents@ =~= join_lines(seq![tail_s]) + seq!['\n']);
            }
            let mut idx: usize = anchor_start.1 + 1;
            while idx < anchor_end.1
                invariant
                    anchor_start.1 + 1 <= idx <= anchor_end.1,
                    anchor_end.1 < self@.len(),
                    anchor_start.0 <= self@[anchor_start.1 as int].len(),
                    tail_s == self@[anchor_start.1 as int].skip(anchor_start.0 as int),
                    contents@ == join_lines(
                        seq![tail_s] + self@.subrange(anchor_start.1 + 1, idx as int),
                    ) + seq!['\n'],
                decreases anchor_end.1 - idx,
            {
                let row_len = self.rows[idx].contents.len();
                proof {
                    self.lemma_index_bridge();
                }
                let row_copy = copy_range(&self.rows[idx].contents, 0, row_len);
                extend_chars(&mut contents, &row_copy);
                contents.push('\n');
                proof {
                    let ps = seq![tail_s] + self@.subrange(anchor_start.1 + 1, idx as int);
                    lemma_join_lines_push(ps, self@[idx as int]);
                    assert(ps.push(self@[idx as int]) =~~= seq![tail_s] + self@.subrange(
                        anchor_start.1 + 1,
                        idx + 1,
                    ));
                    assert(row_copy@ =~= self@[idx as int]);
                    assert(contents@ =~= join_lines(
                        seq![tail_s] + self@.subrange(anchor_start.1 + 1, idx + 1),
                    ) + seq!['\n']);
                }
                idx = idx + 1;
            }
            let head = copy_range(&self.rows[anchor_end.1].contents, 0, anchor_end.0);
            extend_chars(&mut contents, &head);
            proof {
                self.lemma_index_bridge();
                let ps = seq![tail_s] + self@.subrange(anchor_start.1 + 1, anchor_end.1 as int);
                let head_s = self@[anchor_end.1 as int].take(anchor_end.0 as int);
                lemma_join_lines_push(ps, head_s);
                assert(ps.push(head_s) =~~= seq![tail_s] + self@.subrange(
                    anchor_start.1 + 1,
                    anchor_end.1 as int,
                ) + seq![head_s]);
                assert(contents@ =~= join_lines(ps.push(head_s)));
            }
            contents
        }
    }

    /// The character the position points at; see `get_char_spec`.
    pub fn get_char(&self, loc: (usize, usize)) -> (c: char)
        requires
            loc.1 < self@.len(),
        ensures
            c == get_char_spec(self@, loc.0 as int, loc.1 as int),
    {
        let cur_row = &self.rows[loc.1].contents;
        if loc.0 == 0 {
            '\n'
        } else if loc.0 - 1 < cur_row.len() {
            cur_row[loc.0 - 1]
        } else {
            '\0'
        }
    }

    /// Clamps a position to the buffer: the row to the row count, then the
    /// column to that row's length.
    pub fn clamp_to_bounds(&self, loc: (usize, usize)) -> (r: (usize, usize))
        ensures
            (r.0 as int, r.1 as int) == clamp_spec(self@, loc.0 as int, loc.1 as int),
    {
        let mut result = loc;
        let num_rows = self.num_rows();
        if result.1 > num_rows {
            result.1 = num_rows;
        }
        let rowlen = self.row_len(result.1);
        if result.0 > rowlen {
            result.0 = rowlen;
        }
        result
    }

    /// Clamps a position strictly within the buffer: the row to the last
    /// row, the column to the last character of that row; an empty buffer or
    /// an empty row clamps to zero.
    pub fn clamp_within_bounds(&self, loc: (usize, usize)) -> (r: (usize, usize))
        ensures
            r.1 == ({
                let n = self@.len() as int;
                if loc.1 >= n {
                    if n == 0 {
                        0int
                    } else {
                        n - 1
                    }
                } else {
                    loc.1 as int
                }
            }),
            r.0 == ({
                let rowlen = if r.1 < self@.len() {
                    self@[r.1 as int].len() as int
                } else {
                    0int
                };
                if loc.0 >= rowlen {
                    if rowlen == 0 {
                        0int
                    } else {
                        rowlen - 1
                    }
                } else {
                    loc.0 as int
                }
            }),
    {
        let mut result = loc;
        let num_rows = self.num_rows();
        if result.1 >= num_rows {
            result.1 = if num_rows == 0 {
                0
            } else {
                num_rows - 1
            };
        }
        let rowlen = self.row_len(result.1);
        if result.0 >= rowlen {
            result.0 = if rowlen == 0 {
                0
            } else {
                rowlen - 1
            };
        }
        result
    }
}

} // verus!
