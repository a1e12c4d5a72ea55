//! The status bar: one screen line showing the latest message.

use vstd::prelude::*;

use crate::display::{Cell, CellBlock, Color, Display};
use crate::edit::spaces;
use crate::ui::{Event, EventResponse, Rect};

verus! {

/// A status-bar message with its severity; the default is shown before any
/// message arrives.
pub enum StatusMsg {
    /// No message was posted yet.
    Default,
    /// An informational message.
    Normal(Vec<char>),
    /// A warning.
    Warn(Vec<char>),
    /// An error report.
    Error(Vec<char>),
}

/// The status bar component: it remembers the latest message.
pub struct StatusBarComponent {
    /// The message currently shown.
    pub status_msg: StatusMsg,
}

/// The text of a message, and the color it is drawn in.
pub open spec fn msg_chars(m: StatusMsg) -> Seq<char> {
    match m {
        StatusMsg::Default => "[Normal]"@,
        StatusMsg::Normal(s) => s@,
        StatusMsg::Warn(s) => s@,
        StatusMsg::Error(s) => s@,
    }
}

/// The foreground color a message is drawn in: warnings yellow, errors red.
pub open spec fn msg_color(m: StatusMsg) -> Color {
    match m {
        StatusMsg::Default => Color::White,
        StatusMsg::Normal(s) => Color::White,
        StatusMsg::Warn(s) => Color::Yellow,
        StatusMsg::Error(s) => Color::Red,
    }
}

/// The message truncated or padded with spaces to the bar's width.
pub open spec fn bar_chars(m: StatusMsg, width: int) -> Seq<char> {
    let s = msg_chars(m);
    if s.len() >= width {
        s.take(width)
    } else {
        s + spaces(width - s.len())
    }
}


/// What rendering the bar does to the display: its row holds the message
/// text (truncated or padded to the bar's width), every other row is
/// untouched, and the dirty range widens over the bar's rows.
pub open spec fn bar_draw_effect(
    pre: Display,
    post: Display,
    msg: StatusMsg,
    bounds: Rect,
) -> bool {
    &&& post.width == pre.width
    &&& post.height == pre.height
    &&& post.grid_view().len() == pre.grid_view().len()
    &&& (bounds.y < pre.height ==> crate::display::row_written(
        post.grid_view()[bounds.y as int],
        pre.grid_view()[bounds.y as int],
        bounds.x as int,
        bar_chars(msg, bounds.width as int),
    ))
    &&& forall|y: int|
        0 <= y < pre.height && y != bounds.y ==> #[trigger] post.grid_view()[y]
            == pre.grid_view()[y]
    &&& if bounds.y < pre.height && bounds.height > 0 {
        &&& post.min_row == if bounds.y < pre.min_row {
            bounds.y as int
        } else {
            pre.min_row as int
        }
        &&& post.max_row == ({
            let hi = if bounds.y + bounds.height > pre.height {
                pre.height as int
            } else {
                bounds.y + bounds.height
            };
            if hi > pre.max_row {
                hi
            } else {
                pre.max_row as int
            }
        })
    } else {
        post.min_row == pre.min_row && post.max_row == pre.max_row
    }
}

impl StatusBarComponent {
    /// A bar showing the default message.
    pub fn new() -> (r: StatusBarComponent)
        ensures
            r.status_msg is Default,
    {
        StatusBarComponent { status_msg: StatusMsg::Default }
    }

    /// Replaces the shown message and asks for a redraw.
    pub fn send_msg(&mut self, msg: StatusMsg) -> (resp: EventResponse)
        ensures
            final(self).status_msg == msg,
            resp == EventResponse::RedrawDisplay,
    {
        self.status_msg = msg;
        EventResponse::RedrawDisplay
    }

    /// The status bar reacts to no input events.
    pub fn handle_event(&mut self, event: Event) -> (resp: EventResponse)
        ensures
            *final(self) == *old(self),
            resp == EventResponse::NoResponse,
    {
        EventResponse::NoResponse
    }

    /// Renders the bar into the display at its bounds: one run holding the
    /// message, truncated or padded to the width, on a black background.
    pub fn draw(&self, bounds: &Rect, displ: &mut Display)
        requires
            old(displ).wf(),
            bounds.height >= 1,
        ensures
            final(displ).wf(),
            bar_draw_effect(*old(displ), *final(displ), self.status_msg, *bounds),
    {
        proof {
            reveal_strlit("[Normal]");
            assert(vstd::string::is_ascii("[Normal]"));
        }
        let mut cellblock: CellBlock = Cell::empty_cellblock(bounds.height);
        let text_color: Color;
        let msg: Vec<char> = match &self.status_msg {
            StatusMsg::Default => {
                text_color = Color::White;
                crate::text::str_to_chars("[Normal]")
            },
            StatusMsg::Normal(s) => {
                text_color = Color::White;
                crate::text::copy_range(s, 0, s.len())
            },
            StatusMsg::Warn(s) => {
                text_color = Color::Yellow;
                crate::text::copy_range(s, 0, s.len())
            },
            StatusMsg::Error(s) => {
                text_color = Color::Red;
                crate::text::copy_range(s, 0, s.len())
            },
        };
        proof {
            assert(msg@ == msg_chars(self.status_msg));
            assert(text_color == msg_color(self.status_msg));
        }
        let cell: Cell;
        if msg.len() >= bounds.width {
            let cut = crate::text::copy_range(&msg, 0, bounds.width);
            cell = Cell::new(cut, text_color, Color::Black);
        } else {
            let mut padded = msg;
            let deficit = bounds.width - padded.len();
            let mut q: usize = 0;
            let ghost padded0 = padded@;
            while q < deficit
                invariant
                    q <= deficit,
                    padded@ == padded0 + spaces(q as int),
                decreases deficit - q,
            {
                padded.push(' ');
                proof {
                    assert(padded@ =~= padded0 + spaces(q + 1));
                }
                q = q + 1;
            }
            cell = Cell::new(padded, text_color, Color::Black);
        }
        proof {
            assert(cell.text@ == bar_chars(self.status_msg, bounds.width as int));
        }
        cellblock[0].push(cell);
        let ghost cells = cellblock@;
        displ.draw(bounds, &cellblock);
        proof {
            if bounds.y < old(displ).height {
                let oldrow = old(displ).grid_view()[bounds.y as int];
                let f = crate::display::flat_row(cells[0]@);
                crate::display::lemma_overlay_row_written(oldrow, bounds.x as int, f);
                crate::display::lemma_row_chars_push(cells[0]@.drop_last(), cells[0]@.last());
                assert(cells[0]@.drop_last().push(cells[0]@.last()) =~= cells[0]@);
                assert(crate::display::row_chars(cells[0]@.drop_last()) =~= Seq::<char>::empty());
                assert(crate::display::row_chars(cells[0]@) =~= cells[0]@.last().text@);
                assert(f.map_values(|sc: crate::display::ScreenCell| sc.ch)
                    == crate::display::row_chars(cells[0]@));
            }
            assert forall|y: int|
                0 <= y < old(displ).height && y != bounds.y implies #[trigger] displ.grid_view()[y]
                    == old(displ).grid_view()[y] by {
                if bounds.y <= y < bounds.y + cells.len() {
                    let oldrow = old(displ).grid_view()[y];
                    assert(cells[y - bounds.y]@.len() == 0);
                    assert(crate::display::flat_row(cells[y - bounds.y]@) =~= Seq::<
                        crate::display::ScreenCell,
                    >::empty());
                    crate::display::lemma_overlay_empty(oldrow, bounds.x as int);
                }
            }
        }
    }
}

} // verus!
