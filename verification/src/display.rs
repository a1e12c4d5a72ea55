//! The incremental rendering surface.
//!
//! A `Display` is a full-screen grid of single-character styled cells with
//! dirty-row tracking. Panes draw styled text runs (`Cell`) into their own
//! rectangles; the grid absorbs the runs, clips them at its edge, and tracks
//! the smallest row range touched since the last flush. A flush hands back
//! exactly the dirty rows for the terminal writer and resets the range to
//! the empty sentinel.

use vstd::prelude::*;

use crate::ui::Rect;

verus! {

/// A terminal color, as far as the editor styles its cells.
#[derive(Debug, Clone, Copy, PartialEq, Eq, Structural)]
pub enum Color {
    Black,
    White,
    Grey,
    Cyan,
    Yellow,
    Red,
    LightBlue,
}

/// A styled text run: a piece of text drawn in one foreground and one
/// background color.
#[derive(Debug, Clone, PartialEq)]
pub struct Cell {
    /// The characters of the run.
    pub text: Vec<char>,
    /// The foreground color.
    pub text_color: Color,
    /// The background color.
    pub bg_color: Color,
}

/// What a pane hands the display: one sequence of styled runs per screen
/// row of its rectangle.
pub type CellBlock = Vec<Vec<Cell>>;

/// One cell of the screen grid: a single character with its colors.
#[derive(Debug, Clone, Copy, PartialEq, Eq, Structural)]
pub struct ScreenCell {
    /// The character shown.
    pub ch: char,
    /// The foreground color.
    pub fg: Color,
    /// The background color.
    pub bg: Color,
}

/// The blank cell the grid is filled with initially and after a resize.
pub open spec fn blank_cell() -> ScreenCell {
    ScreenCell { ch: ' ', fg: Color::White, bg: Color::Black }
}

/// A screen cell with the given character and colors.
pub open spec fn screen_cell(ch: char, fg: Color, bg: Color) -> ScreenCell {
    ScreenCell { ch, fg, bg }
}

/// The screen cells of one styled run.
pub open spec fn run_cells(c: Cell) -> Seq<ScreenCell> {
    Seq::new(c.text@.len(), |k: int| screen_cell(c.text@[k], c.text_color, c.bg_color))
}

/// The screen cells of one row of styled runs, in order.
pub open spec fn flat_row(cs: Seq<Cell>) -> Seq<ScreenCell>
    decreases cs.len(),
{
    if cs.len() == 0 {
        Seq::empty()
    } else {
        flat_row(cs.drop_last()) + run_cells(cs.last())
    }
}

/// The characters of one row of styled runs, colors forgotten.
pub open spec fn row_chars(cs: Seq<Cell>) -> Seq<char> {
    flat_row(cs).map_values(|sc: ScreenCell| sc.ch)
}

/// Appending one run appends its text to the row's characters.
pub proof fn lemma_row_chars_push(cs: Seq<Cell>, c: Cell)
    ensures
        row_chars(cs.push(c)) == row_chars(cs) + c.text@,
        flat_row(cs.push(c)) == flat_row(cs) + run_cells(c),
{
    assert(cs.push(c).drop_last() =~= cs);
    assert(cs.push(c).last() == c);
    assert(row_chars(cs.push(c)) =~= row_chars(cs) + c.text@);
}

/// `f` written over `oldr` starting at column `x0`; whatever falls outside
/// `oldr` is clipped away.
pub open spec fn overlay(oldr: Seq<ScreenCell>, x0: int, f: Seq<ScreenCell>) -> Seq<ScreenCell> {
    Seq::new(
        oldr.len(),
        |x: int|
            if x0 <= x < x0 + f.len() {
                f[x - x0]
            } else {
                oldr[x]
            },
    )
}

impl Default for Cell {
    /// An empty white-on-black run.
    fn default() -> (r: Cell)
        ensures
            r.text@.len() == 0,
            r.text_color == Color::White,
            r.bg_color == Color::Black,
    {
        Cell { text: Vec::new(), text_color: Color::White, bg_color: Color::Black }
    }
}

/// The row `newr` holds the characters of `txt` written over `oldr` from
/// column `x0` on (clipped at the row end) and is unchanged elsewhere.
pub open spec fn row_written(
    newr: Seq<ScreenCell>,
    oldr: Seq<ScreenCell>,
    x0: int,
    txt: Seq<char>,
) -> bool {
    &&& newr.len() == oldr.len()
    &&& forall|p: int|
        0 <= p < newr.len() ==> if x0 <= p < x0 + txt.len() {
            (#[trigger] newr[p]).ch == txt[p - x0]
        } else {
            newr[p] == oldr[p]
        }
}

/// An overlay writes exactly its runs' characters.
pub proof fn lemma_overlay_row_written(oldr: Seq<ScreenCell>, x0: int, f: Seq<ScreenCell>)
    ensures
        row_written(overlay(oldr, x0, f), oldr, x0, f.map_values(|sc: ScreenCell| sc.ch)),
{
    let newr = overlay(oldr, x0, f);
    let txt = f.map_values(|sc: ScreenCell| sc.ch);
    assert(forall|p: int|
        0 <= p < newr.len() ==> if x0 <= p < x0 + txt.len() {
            (#[trigger] newr[p]).ch == txt[p - x0]
        } else {
            newr[p] == oldr[p]
        });
}

/// An overlay of nothing changes nothing.
pub proof fn lemma_overlay_empty(oldr: Seq<ScreenCell>, x0: int)
    ensures
        overlay(oldr, x0, Seq::<ScreenCell>::empty()) == oldr,
{
    assert(overlay(oldr, x0, Seq::<ScreenCell>::empty()) =~= oldr);
}

impl Cell {
    /// A styled run of the given text and colors.
    pub fn new(text: Vec<char>, text_color: Color, bg_color: Color) -> (r: Cell)
        ensures
            r.text@ == text@,
            r.text_color == text_color,
            r.bg_color == bg_color,
    {
        Cell { text, text_color, bg_color }
    }

    /// A block of the given height with no runs on any row yet.
    pub fn empty_cellblock(rows: usize) -> (r: CellBlock)
        ensures
            r@.len() == rows,
            forall|i: int| 0 <= i < rows ==> (#[trigger] r@[i])@.len() == 0,
    {
        let mut cells: Vec<Vec<Cell>> = Vec::new();
        let mut k: usize = 0;
        while k < rows
            invariant
                k <= rows,
                cells@.len() == k,
                forall|i: int| 0 <= i < k ==> (#[trigger] cells@[i])@.len() == 0,
            decreases rows - k,
        {
            let row: Vec<Cell> = Vec::new();
            cells.push(row);
            k = k + 1;
        }
        cells
    }

    /// A block of `height` rows, each holding `width` copies of one run.
    pub fn filled(
        text: &Vec<char>,
        text_color: Color,
        bg_color: Color,
        width: usize,
        height: usize,
    ) -> (r: CellBlock)
        ensures
            r@.len() == height,
            forall|i: int|
                0 <= i < height ==> {
                    &&& (#[trigger] r@[i])@.len() == width
                    &&& forall|j: int|
                        0 <= j < width ==> {
                            &&& (#[trigger] r@[i]@[j]).text@ == text@
                            &&& r@[i]@[j].text_color == text_color
                            &&& r@[i]@[j].bg_color == bg_color
                        }
                },
    {
        let mut cells: Vec<Vec<Cell>> = Vec::new();
        let mut i: usize = 0;
        while i < height
            invariant
                i <= height,
                cells@.len() == i,
                forall|a: int|
                    0 <= a < i ==> {
                        &&& (#[trigger] cells@[a])@.len() == width
                        &&& forall|j: int|
                            0 <= j < width ==> {
                                &&& (#[trigger] cells@[a]@[j]).text@ == text@
                                &&& cells@[a]@[j].text_color == text_color
                                &&& cells@[a]@[j].bg_color == bg_color
                            }
                    },
            decreases height - i,
        {
            let mut row: Vec<Cell> = Vec::new();
            let mut j: usize = 0;
            while j < width
                invariant
                    j <= width,
                    row@.len() == j,
                    forall|k: int|
                        0 <= k < j ==> {
                            &&& (#[trigger] row@[k]).text@ == text@
                            &&& row@[k].text_color == text_color
                            &&& row@[k].bg_color == bg_color
                        },
                decreases width - j,
            {
                let copied = crate::text::copy_range(text, 0, text.len());
                proof {
                    assert(copied@ =~= text@);
                }
                row.push(Cell { text: copied, text_color, bg_color });
                j = j + 1;
            }
            cells.push(row);
            i = i + 1;
        }
        cells
    }
}

/// The full-screen cell grid with dirty-row tracking. `min_row`/`max_row`
/// bound the half-open row range touched since the last flush; the sentinel
/// (`usize::MAX`, `0`) means nothing is dirty.
pub struct Display {
    /// The grid width in columns.
    pub width: usize,
    /// The grid height in rows.
    pub height: usize,
    /// The cells, one row per screen row.
    pub grid: Vec<Vec<ScreenCell>>,
    /// The first dirty row, or `usize::MAX` when nothing is dirty.
    pub min_row: usize,
    /// One past the last dirty row, or `0` when nothing is dirty.
    pub max_row: usize,
}

impl Display {
    /// The grid of cells as a sequence of rows.
    pub open spec fn grid_view(&self) -> Seq<Seq<ScreenCell>> {
        self.grid@.map_values(|r: Vec<ScreenCell>| r@)
    }

    /// Nothing was touched since the last flush.
    pub open spec fn dirty_empty(&self) -> bool {
        self.min_row == usize::MAX && self.max_row == 0
    }

    /// The grid matches the stated dimensions and the dirty range is either
    /// the empty sentinel or a proper sub-range of the rows.
    pub open spec fn wf(&self) -> bool {
        &&& self.grid_view().len() == self.height
        &&& forall|i: int| 0 <= i < self.height ==> (#[trigger] self.grid_view()[i]).len()
            == self.width
        &&& self.dirty_empty() || (self.min_row < self.max_row && self.max_row <= self.height)
    }

    /// A blank grid of the given size with nothing dirty.
    pub fn new(width: usize, height: usize) -> (r: Display)
        ensures
            r.wf(),
            r.width == width,
            r.height == height,
            r.dirty_empty(),
            forall|i: int, j: int|
                0 <= i < height && 0 <= j < width ==> #[trigger] r.grid_view()[i][j]
                    == blank_cell(),
    {
        let grid = blank_grid(width, height);
        Display { width, height, grid, min_row: usize::MAX, max_row: 0 }
    }

    /// Resizes the grid: the content is reset to blank (callers redraw it
    /// all) and nothing is dirty.
    pub fn resize(&mut self, width: usize, height: usize)
        ensures
            final(self).wf(),
            final(self).width == width,
            final(self).height == height,
            final(self).dirty_empty(),
            forall|i: int, j: int|
                0 <= i < height && 0 <= j < width ==> #[trigger] final(self).grid_view()[i][j]
                    == blank_cell(),
    {
        self.grid = blank_grid(width, height);
        self.width = width;
        self.height = height;
        self.min_row = usize::MAX;
        self.max_row = 0;
    }

    /// Copies a block of styled runs into the grid at the rectangle's
    /// offset, clipping whatever falls outside the grid, and widens the
    /// dirty row range to cover the touched rows.
    pub fn draw(&mut self, rect: &Rect, cells: &CellBlock)
        requires
            old(self).wf(),
        ensures
            final(self).wf(),
            final(self).width == old(self).width,
            final(self).height == old(self).height,
            final(self).grid_view().len() == old(self).grid_view().len(),
            forall|yy: int|
                0 <= yy < old(self).height ==> #[trigger] final(self).grid_view()[yy]
                    == if rect.y <= yy < rect.y + cells@.len() {
                    overlay(
                        old(self).grid_view()[yy],
                        rect.x as int,
                        flat_row(cells@[yy - rect.y]@),
                    )
                } else {
                    old(self).grid_view()[yy]
                },
            ({
                let hi = if rect.y + cells@.len() > old(self).height {
                    old(self).height as int
                } else {
                    rect.y + cells@.len()
                };
                if rect.y < old(self).height && cells@.len() > 0 {
                    &&& final(self).min_row == if rect.y < old(self).min_row {
                        rect.y as int
                    } else {
                        old(self).min_row as int
                    }
                    &&& final(self).max_row == if hi > old(self).max_row {
                        hi
                    } else {
                        old(self).max_row as int
                    }
                } else {
                    &&& final(self).min_row == old(self).min_row
                    &&& final(self).max_row == old(self).max_row
                }
            }),
    {
        let ghost g0 = self.grid_view();
        let nrows = cells.len();
        let mut i: usize = 0;
        while i < nrows
            invariant
                i <= nrows,
                nrows == cells@.len(),
                self.width == old(self).width,
                self.height == old(self).height,
                self.min_row == old(self).min_row,
                self.max_row == old(self).max_row,
                g0 == old(self).grid_view(),
                old(self).wf(),
                self.grid_view().len() == self.height,
                forall|k: int| 0 <= k < self.height ==> (#[trigger] self.grid_view()[k]).len()
                    == self.width,
                forall|yy: int|
                    0 <= yy < self.height ==> #[trigger] self.grid_view()[yy] == if rect.y <= yy
                        < rect.y + i {
                        overlay(g0[yy], rect.x as int, flat_row(cells@[yy - rect.y]@))
                    } else {
                        g0[yy]
                    },
            ensures
                i == nrows || rect.y + i >= self.height,
                i <= nrows,
                self.width == old(self).width,
                self.height == old(self).height,
                self.min_row == old(self).min_row,
                self.max_row == old(self).max_row,
                self.grid_view().len() == self.height,
                forall|k: int| 0 <= k < self.height ==> (#[trigger] self.grid_view()[k]).len()
                    == self.width,
                forall|yy: int|
                    0 <= yy < self.height ==> #[trigger] self.grid_view()[yy] == if rect.y <= yy
                        < rect.y + i {
                        overlay(g0[yy], rect.x as int, flat_row(cells@[yy - rect.y]@))
                    } else {
                        g0[yy]
                    },
            decreases nrows - i,
        {
            if i >= self.height || rect.y > self.height - 1 - i {
                // The rest of the block falls below the grid.
                break ;
            }
            let y = rect.y + i;
            let row = &cells[i];
            let ghost row_s = row@;
            let ghost oldrow = self.grid_view()[y as int];
            let mut x: usize = if rect.x > self.width {
                self.width
            } else {
                rect.x
            };
            let mut j: usize = 0;
            proof {
                assert(flat_row(row_s.take(0)) =~= Seq::<ScreenCell>::empty());
                assert(self.grid_view()[y as int] =~= overlay(
                    oldrow,
                    rect.x as int,
                    flat_row(row_s.take(0)),
                ));
            }
            while j < row.len()
                invariant
                    j <= row_s.len(),
                    row_s == row@,
                    y < self.height,
                    y == rect.y + i,
                    i < nrows,
                    nrows == cells@.len(),
                    row_s == cells@[i as int]@,
                    g0 == old(self).grid_view(),
                    self.width == old(self).width,
                    self.height == old(self).height,
                    self.min_row == old(self).min_row,
                    self.max_row == old(self).max_row,
                    self.grid_view().len() == self.height,
                    forall|k: int| 0 <= k < self.height ==> (#[trigger] self.grid_view()[k]).len()
                        == self.width,
                    oldrow.len() == self.width,
                    x as int == if rect.x + flat_row(row_s.take(j as int)).len() > self.width {
                        self.width as int
                    } else {
                        rect.x + flat_row(row_s.take(j as int)).len()
                    },
                    self.grid_view()[y as int] == overlay(
                        oldrow,
                        rect.x as int,
                        flat_row(row_s.take(j as int)),
                    ),
                    forall|yy: int|
                        0 <= yy < self.height && yy != y ==> #[trigger] self.grid_view()[yy]
                            == if rect.y <= yy < rect.y + i {
                            overlay(g0[yy], rect.x as int, flat_row(cells@[yy - rect.y]@))
                        } else {
                            g0[yy]
                        },
                    oldrow == if rect.y <= y < rect.y + i {
                        overlay(g0[y as int], rect.x as int, flat_row(cells@[y - rect.y]@))
                    } else {
                        g0[y as int]
                    },
                decreases row_s.len() - j,
            {
                let cell = &row[j];
                let ghost flat_j = flat_row(row_s.take(j as int));
                let mut k: usize = 0;
                while k < cell.text.len()
                    invariant
                        k <= cell.text@.len(),
                        cell.text@ == row_s[j as int].text@,
                        cell.text_color == row_s[j as int].text_color,
                        cell.bg_color == row_s[j as int].bg_color,
                        j < row_s.len(),
                        y < self.height,
                        self.width == old(self).width,
                        self.height == old(self).height,
                        self.min_row == old(self).min_row,
                        self.max_row == old(self).max_row,
                        self.grid_view().len() == self.height,
                        forall|q: int|
                            0 <= q < self.height ==> (#[trigger] self.grid_view()[q]).len()
                                == self.width,
                        oldrow.len() == self.width,
                        flat_j == flat_row(row_s.take(j as int)),
                        x as int == if rect.x + flat_j.len() + k > self.width {
                            self.width as int
                        } else {
                            rect.x + flat_j.len() + k
                        },
                        self.grid_view()[y as int] == overlay(
                            oldrow,
                            rect.x as int,
                            flat_j + run_cells(row_s[j as int]).take(k as int),
                        ),
                        forall|yy: int|
                            0 <= yy < self.height && yy != y ==> #[trigger] self.grid_view()[yy]
                                == if rect.y <= yy < rect.y + i {
                                overlay(g0[yy], rect.x as int, flat_row(cells@[yy - rect.y]@))
                            } else {
                                g0[yy]
                            },
                    decreases cell.text@.len() - k,
                {
                    let ghost prev = self.grid_view();
                    if x < self.width {
                        let sc = ScreenCell {
                            ch: cell.text[k],
                            fg: cell.text_color,
                            bg: cell.bg_color,
                        };
                        self.grid[y][x] = sc;
                        proof {
                            assert(forall|yy: int|
                                0 <= yy < prev.len() && yy != y ==> #[trigger] self.grid_view()[yy]
                                    == prev[yy]);
                            assert(self.grid_view()[y as int] == prev[y as int].update(
                                x as int,
                                sc,
                            ));
                            assert(sc == run_cells(row_s[j as int])[k as int]);
                            assert(x as int == rect.x + flat_j.len() + k);
                            let f2 = flat_j + run_cells(row_s[j as int]).take(k + 1);
                            assert(f2.len() == flat_j.len() + k + 1);
                            assert(forall|m: int|
                                0 <= m < flat_j.len() + k ==> #[trigger] f2[m] == (flat_j
                                    + run_cells(row_s[j as int]).take(k as int))[m]);
                            assert(f2[flat_j.len() + k] == sc);
                            assert(self.grid_view()[y as int] =~= overlay(
                                oldrow,
                                rect.x as int,
                                f2,
                            ));
                        }
                        x = x + 1;
                    } else {
                        proof {
                            let f2 = flat_j + run_cells(row_s[j as int]).take(k + 1);
                            assert(rect.x + flat_j.len() + k >= self.width);
                            assert(forall|m: int|
                                0 <= m < flat_j.len() + k ==> #[trigger] f2[m] == (flat_j
                                    + run_cells(row_s[j as int]).take(k as int))[m]);
                            assert(self.grid_view()[y as int] =~= overlay(
                                oldrow,
                                rect.x as int,
                                f2,
                            ));
                        }
                    }
                    k = k + 1;
                }
                proof {
                    assert(run_cells(row_s[j as int]).take(cell.text@.len() as int) =~= run_cells(
                        row_s[j as int],
                    ));
                    assert(row_s.take(j + 1).drop_last() =~= row_s.take(j as int));
                    assert(row_s.take(j + 1).last() == row_s[j as int]);
                    assert(flat_row(row_s.take(j + 1)) == flat_j + run_cells(row_s[j as int]));
                }
                j = j + 1;
            }
            proof {
                assert(row_s.take(row_s.len() as int) =~= row_s);
                assert(self.grid_view()[y as int] == overlay(
                    oldrow,
                    rect.x as int,
                    flat_row(cells@[y - rect.y]@),
                ));
                if rect.y <= y < rect.y + i {
                    assert(overlay(
                        overlay(g0[y as int], rect.x as int, flat_row(cells@[y - rect.y]@)),
                        rect.x as int,
                        flat_row(cells@[y - rect.y]@),
                    ) =~= overlay(g0[y as int], rect.x as int, flat_row(cells@[y - rect.y]@)));
                }
            }
            i = i + 1;
        }

        // Widen the dirty range over the rows the block touches.
        if rect.y < self.height && nrows > 0 {
            let hi = if nrows > self.height - rect.y {
                self.height
            } else {
                rect.y + nrows
            };
            if rect.y < self.min_row {
                self.min_row = rect.y;
            }
            if hi > self.max_row {
                self.max_row = hi;
            }
        }
    }

    /// Hands back the dirty rows — the first dirty row's index and a copy of
    /// each row in the dirty range — and resets the range to the empty
    /// sentinel. An empty dirty range yields no rows.
    pub fn flush(&mut self) -> (r: (usize, Vec<Vec<ScreenCell>>))
        requires
            old(self).wf(),
        ensures
            final(self).wf(),
            final(self).dirty_empty(),
            final(self).width == old(self).width,
            final(self).height == old(self).height,
            final(self).grid_view() == old(self).grid_view(),
            r.0 == if old(self).dirty_empty() {
                0int
            } else {
                old(self).min_row as int
            },
            old(self).dirty_empty() ==> r.1@.len() == 0,
            !old(self).dirty_empty() ==> r.1@.map_values(|v: Vec<ScreenCell>| v@)
                == old(self).grid_view().subrange(
                old(self).min_row as int,
                old(self).max_row as int,
            ),
    {
        let mut out: Vec<Vec<ScreenCell>> = Vec::new();
        if self.min_row == usize::MAX && self.max_row == 0 {
            self.min_row = usize::MAX;
            self.max_row = 0;
            return (0, out);
        }
        let lo = self.min_row;
        let hi = self.max_row;
        let mut y = lo;
        proof {
            assert(out@.map_values(|v: Vec<ScreenCell>| v@) =~~= self.grid_view().subrange(
                lo as int,
                lo as int,
            ));
        }
        while y < hi
            invariant
                lo <= y <= hi,
                hi <= self.grid_view().len(),
                self.grid == old(self).grid,
                self.min_row == old(self).min_row,
                self.max_row == old(self).max_row,
                self.width == old(self).width,
                self.height == old(self).height,
                out@.map_values(|v: Vec<ScreenCell>| v@) == self.grid_view().subrange(
                    lo as int,
                    y as int,
                ),
            decreases hi - y,
        {
            let row_len = self.grid[y].len();
            let mut row_copy: Vec<ScreenCell> = Vec::new();
            let mut x: usize = 0;
            while x < row_len
                invariant
                    x <= row_len,
                    y < self.grid@.len(),
                    row_len == self.grid@[y as int]@.len(),
                    self.grid == old(self).grid,
                    row_copy@ == self.grid@[y as int]@.take(x as int),
                decreases row_len - x,
            {
                row_copy.push(self.grid[y][x]);
                proof {
                    assert(row_copy@ =~= self.grid@[y as int]@.take(x + 1));
                }
                x = x + 1;
            }
            proof {
                assert(row_copy@ =~= self.grid@[y as int]@);
                assert(self.grid_view()[y as int] == self.grid@[y as int]@);
            }
            let ghost prev_out = out@;
            let ghost row_view = row_copy@;
            out.push(row_copy);
            proof {
                assert(out@ == prev_out.push(out@.last()));
                assert(out@.last()@ == row_view);
                assert(out@.map_values(|v: Vec<ScreenCell>| v@) =~~= prev_out.map_values(
                    |v: Vec<ScreenCell>| v@,
                ).push(row_view));
                assert(self.grid_view().subrange(lo as int, y + 1) =~~= self.grid_view().subrange(
                    lo as int,
                    y as int,
                ).push(self.grid_view()[y as int]));
                assert(out@.map_values(|v: Vec<ScreenCell>| v@) =~~= self.grid_view().subrange(
                    lo as int,
                    y + 1,
                ));
            }
            y = y + 1;
        }
        self.min_row = usize::MAX;
        self.max_row = 0;
        (lo, out)
    }
}

/// A `width` by `height` grid of blank cells.
fn blank_grid(width: usize, height: usize) -> (r: Vec<Vec<ScreenCell>>)
    ensures
        r@.len() == height,
        forall|i: int| 0 <= i < height ==> (#[trigger] r@[i])@.len() == width,
        forall|i: int, j: int|
            0 <= i < height && 0 <= j < width ==> #[trigger] r@[i]@[j] == blank_cell(),
{
    let mut grid: Vec<Vec<ScreenCell>> = Vec::new();
    let mut i: usize = 0;
    while i < height
        invariant
            i <= height,
            grid@.len() == i,
            forall|a: int| 0 <= a < i ==> (#[trigger] grid@[a])@.len() == width,
            forall|a: int, j: int|
                0 <= a < i && 0 <= j < width ==> #[trigger] grid@[a]@[j] == blank_cell(),
        decreases height - i,
    {
        let mut row: Vec<ScreenCell> = Vec::new();
        let mut j: usize = 0;
        while j < width
            invariant
                j <= width,
                row@.len() == j,
                forall|k: int| 0 <= k < j ==> #[trigger] row@[k] == blank_cell(),
            decreases width - j,
        {
            row.push(ScreenCell { ch: ' ', fg: Color::White, bg: Color::Black });
            j = j + 1;
        }
        grid.push(row);
        i = i + 1;
    }
    grid
}

} // verus!
