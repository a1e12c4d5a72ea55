//! Inverse exactness of the edit operations.
//!
//! Each edit operation has an exact inverse: applying the operation and then
//! the inverse it determines restores the buffer byte for byte, and leaves
//! the cursor at the position of the original edit. These laws are what the
//! undo engine rests on: an undo command captured at execution time, run
//! against the buffer the execution produced, yields the buffer it started
//! from.

use vstd::prelude::*;

use crate::file::{insert_newline_spec, insert_char_spec, insert_string_spec, insert_string_coord,
    delete_char_spec, delete_char_coord, delete_range_spec, selection_spec, get_char_spec};
use crate::text::{line_wf, lines_wf, split_lines, join_lines};
use crate::text::{lemma_split_lines_len, lemma_split_lines_no_nl,
    lemma_split_lines_wf, lemma_split_lines_prepend, lemma_split_lines_append, lemma_join_split,
    lemma_split_join};

verus! {

/// Splitting a row and then deleting at the start of the new row joins the
/// two halves back: the buffer is restored and the cursor returns to the
/// split point.
pub proof fn lemma_insert_newline_inverse(rows: Seq<Seq<char>>, col: int, row: int)
    requires
        lines_wf(rows),
        0 <= row < rows.len(),
        0 <= col <= rows[row].len(),
    ensures
        delete_char_spec(insert_newline_spec(rows, col, row), 0, row + 1) == rows,
        delete_char_coord(insert_newline_spec(rows, col, row), 0, row + 1) == (col, row),
{
    let rows1 = insert_newline_spec(rows, col, row);
    assert(rows1.len() == rows.len() + 1);
    assert(rows1[row] == rows[row].take(col));
    assert(rows1[row + 1] == rows[row].skip(col));
    let joined = rows1.update(row, rows1[row] + rows1[row + 1]).remove(row + 1);
    assert(rows[row].take(col) + rows[row].skip(col) =~= rows[row]);
    assert(joined =~~= rows);
    assert(delete_char_spec(rows1, 0, row + 1) == joined);
    assert(rows1[row].len() == col);
}

/// Inserting a character and then deleting just after it removes exactly
/// that character: the buffer is restored and the cursor returns to the
/// insertion point.
pub proof fn lemma_insert_char_inverse(rows: Seq<Seq<char>>, col: int, row: int, c: char)
    requires
        lines_wf(rows),
        0 <= row < rows.len(),
        0 <= col <= rows[row].len(),
    ensures
        delete_char_spec(insert_char_spec(rows, col, row, c), col + 1, row) == rows,
        delete_char_coord(insert_char_spec(rows, col, row, c), col + 1, row) == (col, row),
{
    let rows1 = insert_char_spec(rows, col, row, c);
    assert(rows1 == rows.update(row, rows[row].insert(col, c)));
    assert(rows1[row].len() == rows[row].len() + 1);
    assert(rows1[row].remove(col) =~= rows[row]);
    assert(rows1.update(row, rows1[row].remove(col)) =~~= rows);
}

/// Splicing text in and then deleting the spliced range removes exactly the
/// text, and reading the range back before deleting yields exactly the text.
pub proof fn lemma_insert_string_inverse(rows: Seq<Seq<char>>, col: int, row: int, text: Seq<char>)
    requires
        lines_wf(rows),
        0 <= row < rows.len(),
        0 <= col <= rows[row].len(),
    ensures
        ({
            let rows1 = insert_string_spec(rows, col, row, text);
            let end = insert_string_coord(rows, col, row, text);
            &&& delete_range_spec(rows1, col, row, end.0, end.1) == rows
            &&& selection_spec(rows1, col, row, end.0, end.1) == text
            &&& row <= end.1 < rows1.len()
            &&& row == end.1 ==> col <= end.0
            &&& 0 <= end.0 <= rows1[end.1].len()
            &&& col <= rows1[row].len()
            &&& lines_wf(rows1)
        }),
{
    let before = rows[row].take(col);
    let after = rows[row].skip(col);
    let segs = split_lines(text);
    let k = segs.len() as int;
    lemma_split_lines_len(text);
    lemma_split_lines_wf(text);
    lemma_join_split(text);
    assert(line_wf(before));
    assert(line_wf(after));
    lemma_split_lines_append(text, after);
    lemma_split_lines_prepend(before, text + after);
    assert(before + (text + after) =~= before + text + after);
    let buf = split_lines(before + text + after);
    let rows1 = insert_string_spec(rows, col, row, text);
    assert(rows1 == rows.take(row) + buf + rows.skip(row + 1));
    assert(buf.len() == k);
    assert(rows1.len() == rows.len() + k - 1);
    assert(before.len() == col);

    if k == 1 {
        // One piece: the text had no newline, the row just grew.
        assert(segs[0] == join_lines(segs));
        assert(segs[0] == text);
        assert(line_wf(text));
        assert(buf[0] == before + (text + after));
        assert(rows1[row] == before + (text + after));
        let end = insert_string_coord(rows, col, row, text);
        assert(end == (col + text.len(), row));
        assert(rows1[row].len() == rows[row].len() + text.len());
        assert(rows1[row].take(col) =~= before);
        assert(rows1[row].skip(col + text.len()) =~= after);
        assert(before + after =~= rows[row]);
        assert(delete_range_spec(rows1, col, row, end.0, end.1) =~~= rows);
        assert(selection_spec(rows1, col, row, end.0, end.1) =~= text);
        assert(lines_wf(rows1));
    } else {
        // Several pieces: the first carries the old row head, the last the
        // old row tail, the cursor ends after the last piece of the text.
        let tlast = segs.last();
        let end = insert_string_coord(rows, col, row, text);
        assert(end == (tlast.len() as int, row + k - 1));
        assert(buf[0] == before + segs[0]);
        assert(buf.last() == tlast + after);
        assert(forall|j: int| 1 <= j < k - 1 ==> buf[j] == segs[j]);
        assert(rows1[row] == buf[0]);
        assert(rows1[row + k - 1] == buf.last());
        assert(rows1[row + k - 1].len() == tlast.len() + after.len());

        // Deleting the spliced range restores the original rows.
        assert(rows1[row].take(col) =~= before);
        assert(rows1[row + k - 1].skip(tlast.len() as int) =~= after);
        assert(before + after =~= rows[row]);
        assert(delete_range_spec(rows1, col, row, end.0, end.1) =~~= rows);

        // Reading the spliced range yields the text back.
        let pieces = seq![rows1[row].skip(col)] + rows1.subrange(row + 1, row + k - 1) + seq![
            rows1[row + k - 1].take(tlast.len() as int),
        ];
        assert(rows1[row].skip(col) =~= segs[0]);
        assert(rows1[row + k - 1].take(tlast.len() as int) =~= tlast);
        assert(rows1.subrange(row + 1, row + k - 1) =~~= segs.subrange(1, k - 1));
        assert(pieces =~~= segs);
        assert(selection_spec(rows1, col, row, end.0, end.1) == join_lines(segs));
        assert(lines_wf(rows1));
    }
}

/// Deleting one character and then inserting what was deleted at the
/// resulting cursor restores the buffer: the deleted character comes back as
/// a character insert, a deleted row boundary as a new newline.
pub proof fn lemma_delete_char_inverse(rows: Seq<Seq<char>>, col: int, row: int)
    requires
        lines_wf(rows),
        0 <= row < rows.len(),
        0 <= col <= rows[row].len(),
        !(col == 0 && row == 0),
    ensures
        ({
            let rows1 = delete_char_spec(rows, col, row);
            let end = delete_char_coord(rows, col, row);
            let ch = get_char_spec(rows, col, row);
            &&& col == 0 ==> ch == '\n' && insert_newline_spec(rows1, end.0, end.1) == rows
            &&& col == 0 ==> end.1 < rows1.len() && end.0 <= rows1[end.1].len()
            &&& col > 0 ==> ch != '\n' && insert_char_spec(rows1, end.0, end.1, ch) == rows
            &&& col > 0 ==> end.1 < rows1.len() && end.0 <= rows1[end.1].len()
            &&& lines_wf(rows1)
        }),
{
    let rows1 = delete_char_spec(rows, col, row);
    let end = delete_char_coord(rows, col, row);
    let ch = get_char_spec(rows, col, row);
    if col == 0 {
        // A row join: the boundary comes back by splitting where the rows met.
        assert(rows1 == rows.update(row - 1, rows[row - 1] + rows[row]).remove(row));
        assert(end == (rows[row - 1].len() as int, row - 1));
        assert(rows1[row - 1] == rows[row - 1] + rows[row]);
        assert(lines_wf(rows1));
        let back = insert_newline_spec(rows1, end.0, end.1);
        assert(rows1[row - 1].take(rows[row - 1].len() as int) =~= rows[row - 1]);
        assert(rows1[row - 1].skip(rows[row - 1].len() as int) =~= rows[row]);
        assert(back =~~= rows);
    } else {
        // A character removal: the character comes back where it stood.
        assert(ch == rows[row][col - 1]);
        assert(ch != '\n');
        assert(rows1 == rows.update(row, rows[row].remove(col - 1)));
        assert(end == (col - 1, row));
        assert(rows1[row].len() == rows[row].len() - 1);
        assert(lines_wf(rows1));
        let back = insert_char_spec(rows1, col - 1, row, ch);
        assert(rows1[row].insert(col - 1, ch) =~= rows[row]);
        assert(back =~~= rows);
    }
}

/// Deleting a range and then splicing the captured text back at the start of
/// the range restores the buffer, with the cursor back at the range end.
pub proof fn lemma_delete_range_inverse(
    rows: Seq<Seq<char>>,
    s_col: int,
    s_row: int,
    e_col: int,
    e_row: int,
)
    requires
        lines_wf(rows),
        0 <= s_row <= e_row < rows.len(),
        s_row == e_row ==> s_col <= e_col,
        0 <= s_col <= rows[s_row].len(),
        0 <= e_col <= rows[e_row].len(),
    ensures
        ({
            let rows1 = delete_range_spec(rows, s_col, s_row, e_col, e_row);
            let text = selection_spec(rows, s_col, s_row, e_col, e_row);
            &&& insert_string_spec(rows1, s_col, s_row, text) == rows
            &&& insert_string_coord(rows1, s_col, s_row, text) == (e_col, e_row)
            &&& s_row < rows1.len()
            &&& s_col <= rows1[s_row].len()
            &&& lines_wf(rows1)
        }),
{
    let rows1 = delete_range_spec(rows, s_col, s_row, e_col, e_row);
    let text = selection_spec(rows, s_col, s_row, e_col, e_row);
    let head = rows[s_row].take(s_col);
    let tail = rows[e_row].skip(e_col);
    assert(rows1[s_row] == head + tail);
    assert(head.len() == s_col);
    assert(lines_wf(rows1));
    assert(rows1[s_row].take(s_col) =~= head);
    assert(rows1[s_row].skip(s_col) =~= tail);
    if s_row == e_row {
        // Same row: the captured slice goes straight back in.
        assert(text == rows[e_row].subrange(s_col, e_col));
        assert(line_wf(text));
        lemma_split_lines_no_nl(text);
        assert(split_lines(text).len() == 1);
        lemma_split_lines_no_nl(head + text + tail);
        assert(insert_string_spec(rows1, s_col, s_row, text) == rows1.take(s_row) + split_lines(
            head + text + tail,
        ) + rows1.skip(s_row + 1));
        assert(head + text + tail =~= rows[s_row]);
        assert(insert_string_spec(rows1, s_col, s_row, text) =~~= rows);
        assert(insert_string_coord(rows1, s_col, s_row, text) == (s_col + text.len(), s_row));
        assert(s_col + text.len() == e_col);
    } else {
        // Several rows: the captured text splits back into exactly the rows
        // the deletion folded together.
        let tail_s = rows[s_row].skip(s_col);
        let head_e = rows[e_row].take(e_col);
        let pieces = seq![tail_s] + rows.subrange(s_row + 1, e_row) + seq![head_e];
        assert(text == join_lines(pieces));
        assert(pieces.len() == e_row - s_row + 1);
        assert(lines_wf(pieces));
        lemma_split_join(pieces);
        assert(split_lines(text) == pieces);
        assert(split_lines(text).last() == head_e);
        assert(line_wf(tail));
        assert(line_wf(head));
        lemma_split_lines_append(text, tail);
        lemma_split_lines_prepend(head, text + tail);
        assert(head + (text + tail) =~= head + text + tail);
        let buf = split_lines(head + text + tail);
        assert(buf.len() == pieces.len());
        assert(buf[0] == head + pieces[0]);
        assert(head + pieces[0] =~= rows[s_row]);
        assert(buf.last() == pieces.last() + tail);
        assert(pieces.last() + tail =~= rows[e_row]);
        assert(forall|j: int| 1 <= j < pieces.len() - 1 ==> buf[j] == pieces[j]);
        assert(insert_string_spec(rows1, s_col, s_row, text) == rows1.take(s_row) + buf
            + rows1.skip(s_row + 1));
        assert(insert_string_spec(rows1, s_col, s_row, text) =~~= rows);
        assert(insert_string_coord(rows1, s_col, s_row, text) == (
            head_e.len() as int,
            s_row + pieces.len() - 1,
        ));
    }
}

} // verus!
