//! The multi-pane layout: an ordered list of panes and their screen
//! rectangles.
//!
//! The viewer owns the panes, computes their proportional widths from the
//! outer bounds, routes key and mouse events to the active pane (translating
//! mouse positions into pane-relative coordinates), and supports dragging
//! the divider between two adjacent panes.

use vstd::prelude::*;

use crate::display::Display;
use crate::edit::{FileEditComponent, EditMsg, sat_add};
use crate::file::FileState;
use crate::ui::{Event, EventResponse, MouseEvent, MouseEventKind, Rect, spec_contains};

verus! {

/// The sentinel for "no pane": no active pane, or no divider being dragged.
pub const NO_VIEW: usize = usize::MAX;

/// The sum of the widths of the rectangles.
pub open spec fn sum_widths(bs: Seq<Rect>) -> int
    decreases bs.len(),
{
    if bs.len() == 0 {
        0
    } else {
        bs[0].width + sum_widths(bs.drop_first())
    }
}

/// Adjacent rectangles share an edge: each one starts where the previous
/// one ends (their border columns coincide on screen, as the last column of
/// a pane is its border).
pub open spec fn chained(bs: Seq<Rect>) -> bool {
    forall|k: int| 0 <= k < bs.len() - 1 ==> (#[trigger] bs[k + 1]).x == bs[k].x + bs[k].width
}

/// In a chain of rectangles, the right edge of the last is the left edge of
/// the first plus the sum of all widths.
pub proof fn lemma_chain_sum(bs: Seq<Rect>)
    requires
        bs.len() >= 1,
        chained(bs),
    ensures
        bs.last().x + bs.last().width == bs[0].x + sum_widths(bs),
    decreases bs.len(),
{
    if bs.len() == 1 {
        assert(bs.drop_first().len() == 0);
        assert(sum_widths(bs.drop_first()) == 0);
        assert(sum_widths(bs) == bs[0].width);
    } else {
        let rest = bs.drop_first();
        assert(chained(rest)) by {
            assert(forall|k: int|
                0 <= k < rest.len() - 1 ==> (#[trigger] rest[k + 1]).x == rest[k].x
                    + rest[k].width) by {
                assert(forall|k: int|
                    0 <= k < rest.len() - 1 ==> rest[k + 1] == bs[k + 2] && rest[k] == #[trigger]
                        bs[k + 1]);
            }
        }
        lemma_chain_sum(rest);
        assert(rest.last() == bs.last());
        assert(rest[0] == bs[1]);
        assert(bs[0int + 1].x == bs[0].x + bs[0].width);
        assert(sum_widths(bs) == bs[0].width + sum_widths(rest));
        assert(rest[0].x + sum_widths(rest) == bs[0].x + sum_widths(bs));
        assert(bs.last().x + bs.last().width == bs[0].x + sum_widths(bs));
    }
}

/// Width conservation: a pane layout that tiles the outer rectangle edge to
/// edge has total width equal to the outer width plus one — the shared
/// border double counting, since adjacent panes' border columns coincide.
pub proof fn lemma_layout_width_conservation(bs: Seq<Rect>, outer: Rect)
    requires
        bs.len() >= 1,
        chained(bs),
        bs[0].x == outer.x,
        bs.last().x + bs.last().width == outer.x + outer.width + 1,
    ensures
        sum_widths(bs) == outer.width + 1,
{
    lemma_chain_sum(bs);
}

/// What remains of the width budget before pane `i` is sized: the layout
/// works right to left from a budget of the outer width plus one, so the
/// panes at `i` and beyond have already taken their widths.
pub open spec fn layout_rem(budget: int, i: int, total: int) -> int
    decreases total - i,
{
    if i >= total {
        budget
    } else {
        let r = layout_rem(budget, i + 1, total);
        let w = if r / (i + 1) < 2 {
            2int
        } else {
            r / (i + 1)
        };
        r - w
    }
}

/// The width of pane `i` out of `total`: its proportional share of what the
/// panes to its right left over, but never below two columns (one content
/// column and the border).
pub open spec fn layout_width(budget: int, i: int, total: int) -> int {
    let r = layout_rem(budget, i + 1, total);
    if r / (i + 1) < 2 {
        2int
    } else {
        r / (i + 1)
    }
}

/// The index of the first rectangle containing the point, or the length if
/// none does.
pub open spec fn hit_pane(bs: Seq<Rect>, p: (usize, usize), from: int) -> int
    decreases bs.len() - from,
{
    if from < 0 || from >= bs.len() {
        bs.len() as int
    } else if spec_contains(bs[from], p) {
        from
    } else {
        hit_pane(bs, p, from + 1)
    }
}


/// What a mouse press does to the viewer: a press on a pane's border column
/// selects the divider, a press on an inactive pane activates it, a press
/// inside the active pane is routed to the pane in pane-relative
/// coordinates; see `FileViewerComonent::handle_mouse_down`.
pub open spec fn viewer_mouse_down_effect(
    pre: FileViewerComonent,
    post: FileViewerComonent,
    event: MouseEvent,
    resp: EventResponse,
) -> bool {
    let p = (event.column as usize, event.row as usize);
    let bs = pre.file_view_bounds@;
    let h = hit_pane(bs, p, 0);
    &&& post.file_view_bounds == pre.file_view_bounds
    &&& post.file_views@.len() == pre.file_views@.len()
    &&& if h == bs.len() {
        &&& post == pre
        &&& resp == EventResponse::NoResponse
    } else if p.0 == bs[h].x + bs[h].width - 1 {
        &&& post.selected_border == h
        &&& post.active_view == pre.active_view
        &&& post.file_views == pre.file_views
        &&& resp == EventResponse::NoResponse
    } else if h != pre.active_view {
        &&& post.selected_border == NO_VIEW
        &&& post.active_view == h
        &&& post.file_views == pre.file_views
        &&& resp == EventResponse::MoveCursor
    } else {
        &&& post.selected_border == NO_VIEW
        &&& post.active_view == pre.active_view
        &&& forall|k: int|
            0 <= k < pre.file_views@.len() && k != h ==> #[trigger] post.file_views@[k]
                == pre.file_views@[k]
        &&& if h < pre.file_views@.len() && pre.file_views@[h].wrap_width >= 2 {
            crate::edit::pane_event_effect(
                pre.file_views@[h],
                post.file_views@[h],
                Event::Mouse(
                    MouseEvent {
                        kind: event.kind,
                        column: ((event.column - bs[h].x) as u16),
                        row: ((event.row - bs[h].y) as u16),
                    },
                ),
                resp,
            )
        } else {
            post.file_views == pre.file_views && resp == EventResponse::NoResponse
        }
    }
}

/// What a mouse drag does to the viewer: while a divider is selected it
/// moves the shared edge (rejected if a side would become too narrow),
/// otherwise a drag inside the active pane is routed to it; see
/// `FileViewerComonent::handle_mouse_drag`.
pub open spec fn viewer_mouse_drag_effect(
    pre: FileViewerComonent,
    post: FileViewerComonent,
    event: MouseEvent,
    resp: EventResponse,
) -> bool {
    &&& post.active_view == pre.active_view
    &&& post.selected_border == pre.selected_border
    &&& post.file_views@.len() == pre.file_views@.len()
    &&& if pre.selected_border != NO_VIEW {
        if pre.selected_border + 1 < pre.file_view_bounds@.len() && pre.selected_border + 1
            < pre.file_views@.len() && pre.file_view_bounds@[pre.selected_border as int].width
            >= 1 {
            let sb = pre.selected_border as int;
            let left = pre.file_view_bounds@[sb];
            let right = pre.file_view_bounds@[sb + 1];
            let col = event.column as int;
            let divider = crate::edit::sat_add(left.x as int, left.width as int) - 1;
            if col > divider && right.width - (col - divider) > 2 {
                // Accepted: the edge moves right by the drag distance.
                let delta = col - divider;
                &&& post.file_view_bounds@[sb].width == crate::edit::sat_add(
                    left.width as int,
                    delta,
                )
                &&& post.file_view_bounds@[sb + 1].width == right.width - delta
                &&& post.file_view_bounds@[sb + 1].x == crate::edit::sat_add(right.x as int, delta)
                &&& post.file_views@[sb].wrap_width == post.file_view_bounds@[sb].width
                &&& post.file_views@[sb + 1].wrap_width == post.file_view_bounds@[sb + 1].width
                &&& resp == EventResponse::RedrawDisplay
            } else if col < divider && left.width - (divider - col) > 2 {
                // Accepted: the edge moves left by the drag distance.
                let delta = divider - col;
                &&& post.file_view_bounds@[sb].width == left.width - delta
                &&& post.file_view_bounds@[sb + 1].width == crate::edit::sat_add(
                    right.width as int,
                    delta,
                )
                &&& post.file_view_bounds@[sb + 1].x == if right.x >= delta {
                    right.x - delta
                } else {
                    0int
                }
                &&& post.file_views@[sb].wrap_width == post.file_view_bounds@[sb].width
                &&& post.file_views@[sb + 1].wrap_width == post.file_view_bounds@[sb + 1].width
                &&& resp == EventResponse::RedrawDisplay
            } else {
                // Rejected: a side would become too narrow to edit in.
                &&& post.file_view_bounds == pre.file_view_bounds
                &&& post.file_views == pre.file_views
                &&& resp == EventResponse::NoResponse
            }
        } else {
            // A divider with no right neighbour cannot move.
            &&& post == pre
            &&& resp == EventResponse::NoResponse
        }
    } else {
        &&& post.file_view_bounds == pre.file_view_bounds
        &&& if pre.active_view < pre.file_view_bounds@.len() && pre.active_view
            < pre.file_views@.len() && spec_contains(
            pre.file_view_bounds@[pre.active_view as int],
            (event.column as usize, event.row as usize),
        ) && pre.file_views@[pre.active_view as int].wrap_width >= 2 {
            let b = pre.file_view_bounds@[pre.active_view as int];
            &&& forall|k: int|
                0 <= k < pre.file_views@.len() && k != pre.active_view
                    ==> #[trigger] post.file_views@[k] == pre.file_views@[k]
            &&& crate::edit::pane_event_effect(
                pre.file_views@[pre.active_view as int],
                post.file_views@[pre.active_view as int],
                Event::Mouse(
                    MouseEvent {
                        kind: event.kind,
                        column: ((event.column - b.x) as u16),
                        row: ((event.row - b.y) as u16),
                    },
                ),
                resp,
            )
        } else {
            &&& post == pre
            &&& resp == EventResponse::NoResponse
        }
    }
}

/// What routing one input event does to the viewer: mouse presses and drags
/// go through the hit-testing handlers, everything else reaches the active
/// pane; with no active pane nothing happens.
pub open spec fn viewer_event_effect(
    pre: FileViewerComonent,
    post: FileViewerComonent,
    event: Event,
    resp: EventResponse,
) -> bool {
    if pre.active_view == NO_VIEW {
        post == pre && resp == EventResponse::NoResponse
    } else {
        match event {
            Event::Mouse(m) => {
                if m.kind == MouseEventKind::Down {
                    viewer_mouse_down_effect(pre, post, m, resp)
                } else if m.kind == MouseEventKind::Drag {
                    viewer_mouse_drag_effect(pre, post, m, resp)
                } else {
                    post == pre && resp == EventResponse::NoResponse
                }
            },
            _ => {
                if pre.active_view < pre.file_views@.len() {
                    &&& post.file_view_bounds == pre.file_view_bounds
                    &&& post.active_view == pre.active_view
                    &&& post.selected_border == pre.selected_border
                    &&& post.file_views@.len() == pre.file_views@.len()
                    &&& forall|k: int|
                        0 <= k < pre.file_views@.len() && k != pre.active_view
                            ==> #[trigger] post.file_views@[k] == pre.file_views@[k]
                    &&& crate::edit::pane_event_effect(
                        pre.file_views@[pre.active_view as int],
                        post.file_views@[pre.active_view as int],
                        event,
                        resp,
                    )
                } else {
                    post == pre && resp == EventResponse::NoResponse
                }
            },
        }
    }
}

/// What an undo or redo message does to the viewer: the active pane gets it,
/// every other pane stays as it was.
pub open spec fn viewer_msg_effect(
    pre: FileViewerComonent,
    post: FileViewerComonent,
    msg: EditMsg,
    resp: EventResponse,
) -> bool {
    &&& post.file_view_bounds == pre.file_view_bounds
    &&& post.active_view == pre.active_view
    &&& post.selected_border == pre.selected_border
    &&& post.file_views@.len() == pre.file_views@.len()
    &&& if pre.active_view != NO_VIEW && pre.active_view < pre.file_views@.len() {
        &&& forall|k: int|
            0 <= k < pre.file_views@.len() && k != pre.active_view
                ==> #[trigger] post.file_views@[k] == pre.file_views@[k]
        &&& crate::edit::pane_msg_effect(
            pre.file_views@[pre.active_view as int],
            post.file_views@[pre.active_view as int],
            msg,
            resp,
        )
    } else {
        post == pre && resp == EventResponse::NoResponse
    }
}


/// A drawing trace: `trace[k]` is the display before pane `k` is rendered
/// and `trace[k + 1]` the display after; a pane without a rectangle leaves
/// the display as it was.
pub open spec fn draw_trace_ok(
    trace: Seq<Display>,
    views: Seq<FileEditComponent>,
    bounds: Seq<Rect>,
) -> bool {
    forall|k: int|
        0 <= k < trace.len() - 1 ==> if k < bounds.len() {
            crate::edit::pane_draw_effect(#[trigger] trace[k], trace[k + 1], views[k], bounds[k])
        } else {
            trace[k + 1] == trace[k]
        }
}

/// The ordered list of panes, their rectangles, the active pane and the
/// divider being dragged (if any).
pub struct FileViewerComonent {
    /// The panes, in screen order.
    pub file_views: Vec<FileEditComponent>,
    /// One rectangle per pane, set by `resize_file_views`.
    pub file_view_bounds: Vec<Rect>,
    /// The index of the pane that receives key events, or `NO_VIEW`.
    pub active_view: usize,
    /// The index of the divider being dragged, or `NO_VIEW`.
    pub selected_border: usize,
}

impl FileViewerComonent {
    /// Every pane is well formed.
    pub open spec fn wf(&self) -> bool {
        forall|k: int| 0 <= k < self.file_views@.len() ==> (#[trigger] self.file_views@[k]).wf()
    }

    /// A viewer with no panes and nothing active.
    pub fn new() -> (r: FileViewerComonent)
        ensures
            r.wf(),
            r.file_views@.len() == 0,
            r.file_view_bounds@.len() == 0,
            r.active_view == NO_VIEW,
            r.selected_border == NO_VIEW,
    {
        FileViewerComonent {
            file_views: Vec::new(),
            file_view_bounds: Vec::new(),
            active_view: NO_VIEW,
            selected_border: NO_VIEW,
        }
    }

    /// Adds one opened buffer as a new rightmost pane and makes it active.
    pub fn add_file(&mut self, fs: FileState)
        requires
            old(self).wf(),
            fs.wf(),
        ensures
            final(self).wf(),
            final(self).file_views@.len() == old(self).file_views@.len() + 1,
            final(self).file_views@.last().filestate@ == fs@,
            final(self).file_views@.take(old(self).file_views@.len() as int) == old(self).file_views@,
            final(self).active_view == final(self).file_views@.len() - 1,
            final(self).file_view_bounds == old(self).file_view_bounds,
            final(self).selected_border == old(self).selected_border,
    {
        let view = FileEditComponent::new(fs);
        self.file_views.push(view);
        self.active_view = self.file_views.len() - 1;
        proof {
            assert(self.file_views@.take(old(self).file_views@.len() as int) =~= old(self).file_views@);
        }
    }

    /// Adds each opened buffer as a pane, in order; the last one is active.
    pub fn add_files(&mut self, files: Vec<FileState>)
        requires
            old(self).wf(),
            forall|k: int| 0 <= k < files@.len() ==> (#[trigger] files@[k]).wf(),
        ensures
            final(self).wf(),
            final(self).file_views@.len() == old(self).file_views@.len() + files@.len(),
            final(self).file_view_bounds == old(self).file_view_bounds,
    {
        let mut files = files;
        let total = files.len();
        let mut k: usize = 0;
        let ghost files0 = files@;
        while k < total
            invariant
                k <= total,
                total == files0.len(),
                files@ == files0.skip(k as int),
                forall|j: int| 0 <= j < files0.len() ==> (#[trigger] files0[j]).wf(),
                self.wf(),
                self.file_views@.len() == old(self).file_views@.len() + k,
                self.file_view_bounds == old(self).file_view_bounds,
            decreases total - k,
        {
            let fs = files.remove(0);
            proof {
                assert(fs == files0[k as int]);
                assert(files@ =~= files0.skip(k + 1));
            }
            self.add_file(fs);
            k = k + 1;
        }
    }

    /// Recomputes every pane's rectangle from the outer bounds, right to
    /// left: the rightmost pane gets its proportional share first and the
    /// leftmost absorbs the remainder; every pane is at least two columns
    /// wide (one content column and the border), panes tile the outer
    /// rectangle edge to edge, and each pane's wrap width follows its new
    /// bounds.
    pub fn resize_file_views(&mut self, outer_bounds: &Rect)
        requires
            old(self).wf(),
            outer_bounds.x + outer_bounds.width < usize::MAX,
            old(self).file_views@.len() >= 1 ==> outer_bounds.width + 1 >= 2 * old(self).file_views@.len(),
        ensures
            final(self).wf(),
            final(self).file_views@.len() == old(self).file_views@.len(),
            final(self).file_view_bounds@.len() == old(self).file_views@.len(),
            final(self).active_view == old(self).active_view,
            final(self).selected_border == old(self).selected_border,
            forall|k: int|
                0 <= k < final(self).file_view_bounds@.len() ==> {
                    &&& (#[trigger] final(self).file_view_bounds@[k]).width >= 2
                    &&& final(self).file_view_bounds@[k].y == outer_bounds.y
                    &&& final(self).file_view_bounds@[k].height == outer_bounds.height
                },
            chained(final(self).file_view_bounds@),
            forall|k: int|
                0 <= k < final(self).file_view_bounds@.len()
                    ==> (#[trigger] final(self).file_view_bounds@[k]).width == layout_width(
                    outer_bounds.width + 1,
                    k,
                    old(self).file_views@.len() as int,
                ),
            final(self).file_view_bounds@.len() >= 1 ==> {
                &&& final(self).file_view_bounds@[0].x == outer_bounds.x
                &&& final(self).file_view_bounds@.last().x
                    + final(self).file_view_bounds@.last().width == outer_bounds.x
                    + outer_bounds.width + 1
                &&& sum_widths(final(self).file_view_bounds@) == outer_bounds.width + 1
            },
            forall|k: int|
                0 <= k < final(self).file_views@.len() ==> (#[trigger] final(self).file_views@[k]).wrap_width == final(self).file_view_bounds@[k].width,
            forall|k: int|
                0 <= k < final(self).file_views@.len() ==> {
                    &&& (#[trigger] final(self).file_views@[k]).filestate == old(self).file_views@[k].filestate
                    &&& final(self).file_views@[k].cursor == old(self).file_views@[k].cursor
                    &&& final(self).file_views@[k].undo_commands == old(self).file_views@[k].undo_commands
                    &&& final(self).file_views@[k].text_selected == old(self).file_views@[k].text_selected
                },
    {
        let view_count = self.file_views.len();
        let mut bounds: Vec<Rect> = Vec::new();
        let mut f: usize = 0;
        while f < view_count
            invariant
                f <= view_count,
                bounds@.len() == f,
            decreases view_count - f,
        {
            bounds.push(Rect { x: 0, y: 0, width: 0, height: 0 });
            f = f + 1;
        }
        self.file_view_bounds = bounds;
        let mut n: usize = outer_bounds.width + 1;
        let mut i: usize = view_count;
        while i >= 1
            invariant
                i <= view_count,
                view_count == self.file_views@.len(),
                self.file_view_bounds@.len() == view_count,
                self.wf(),
                self.active_view == old(self).active_view,
                self.selected_border == old(self).selected_border,
                outer_bounds.x + outer_bounds.width < usize::MAX,
                view_count >= 1 ==> n <= outer_bounds.width + 1,
                view_count >= 1 ==> n >= 2 * i,
                i == 0 && view_count >= 1 ==> n == 0,
                n as int == layout_rem(outer_bounds.width + 1, i as int, view_count as int),
                forall|k: int|
                    i <= k < view_count ==> (#[trigger] self.file_view_bounds@[k]).width
                        == layout_width(outer_bounds.width + 1, k, view_count as int),
                i == view_count ==> n == outer_bounds.width + 1,
                forall|k: int|
                    i <= k < view_count ==> {
                        &&& (#[trigger] self.file_view_bounds@[k]).width >= 2
                        &&& self.file_view_bounds@[k].y == outer_bounds.y
                        &&& self.file_view_bounds@[k].height == outer_bounds.height
                    },
                forall|k: int|
                    i <= k < view_count - 1 ==> (#[trigger] self.file_view_bounds@[k + 1]).x
                        == self.file_view_bounds@[k].x + self.file_view_bounds@[k].width,
                i < view_count ==> self.file_view_bounds@[i as int].x == outer_bounds.x + n,
                i < view_count ==> self.file_view_bounds@[view_count - 1].x
                    + self.file_view_bounds@[view_count - 1].width == outer_bounds.x
                    + outer_bounds.width + 1,
                forall|k: int|
                    i <= k < view_count ==> (#[trigger] self.file_views@[k]).wrap_width
                        == self.file_view_bounds@[k].width,
                forall|k: int|
                    0 <= k < i ==> #[trigger] self.file_views@[k] == old(self).file_views@[k],
                forall|k: int|
                    i <= k < view_count ==> {
                        &&& (#[trigger] self.file_views@[k]).filestate == old(self).file_views@[k].filestate
                        &&& self.file_views@[k].cursor == old(self).file_views@[k].cursor
                        &&& self.file_views@[k].undo_commands == old(self).file_views@[k].undo_commands
                        &&& self.file_views@[k].text_selected == old(self).file_views@[k].text_selected
                    },
            decreases i,
        {
            let mut temp = n / i;
            if temp < 2 {
                temp = 2;
            }
            proof {
                if i == 1 {
                    assert(n as int / 1int == n as int);
                    assert(temp == n);
                }
                assert(temp <= n) by {
                    assert(n / i <= n) by (nonlinear_arith)
                        requires
                            i >= 1,
                            n >= 0,
                    ;
                }
                assert(n - temp >= 2 * (i - 1)) by {
                    vstd::arithmetic::div_mod::lemma_fundamental_div_mod(n as int, i as int);
                    assert(n == i * (n / i) + n % i);
                    if n / i >= 2 {
                        assert((n / i) * (i - 1) >= 2 * (i - 1)) by (nonlinear_arith)
                            requires
                                n / i >= 2,
                                i >= 1,
                        ;
                        assert(i * (n / i) - (n / i) == (n / i) * (i - 1)) by (nonlinear_arith);
                    }
                }
            }
            let b = Rect {
                x: n - temp + outer_bounds.x,
                y: outer_bounds.y,
                width: temp,
                height: outer_bounds.height,
            };
            self.file_view_bounds[i - 1] = b;
            self.file_views[i - 1].set_wrap_width(temp);
            n = n - temp;
            i = i - 1;
        }
        proof {
            if view_count >= 1 {
                assert(n == 0);
                assert(self.file_view_bounds@[0].x == outer_bounds.x);
                lemma_layout_width_conservation(self.file_view_bounds@, *outer_bounds);
            }
        }
    }


    /// Routes a mouse press: a press on a pane's border column starts a
    /// divider drag; a press on an inactive pane activates it; a press
    /// inside the active pane is forwarded to it in pane-relative
    /// coordinates. A press outside every pane does nothing.
    pub fn handle_mouse_down(&mut self, event: MouseEvent) -> (resp: EventResponse)
        requires
            old(self).wf(),
        ensures
            final(self).wf(),
            viewer_mouse_down_effect(*old(self), *final(self), event, resp),
    {
        let ghost p = (event.column as usize, event.row as usize);
        let ghost bs = self.file_view_bounds@;
        let total = self.file_view_bounds.len();
        let mut m: usize = 0;
        while m < total
            invariant
                m <= total,
                total == bs.len(),
                bs == self.file_view_bounds@,
                p == (event.column as usize, event.row as usize),
                hit_pane(bs, p, m as int) == hit_pane(bs, p, 0),
                forall|k: int| 0 <= k < m ==> !spec_contains(bs[k], p),
                self == old(self),
                self.wf(),
            decreases total - m,
        {
            let b = self.file_view_bounds[m];
            if b.contains_point((event.column as usize, event.row as usize)) {
                proof {
                    assert(hit_pane(bs, p, m as int) == m);
                }
                // A press on the border column selects the divider for a drag.
                if event.column as usize >= b.x && event.column as usize - b.x == b.width - 1 {
                    proof {
                        assert(p.0 == bs[m as int].x + bs[m as int].width - 1);
                    }
                    self.selected_border = m;
                    return EventResponse::NoResponse;
                }
                proof {
                    assert(p.0 != bs[m as int].x + bs[m as int].width - 1);
                }
                self.selected_border = NO_VIEW;
                if m != self.active_view {
                    self.active_view = m;
                    return EventResponse::MoveCursor;
                }
                // Forward the press to the pane it hit, relative to its
                // rectangle.
                if m < self.file_views.len() && self.file_views[m].wrap_width >= 2 {
                    let translated = MouseEvent {
                        kind: event.kind,
                        column: event.column - (b.x as u16),
                        row: event.row - (b.y as u16),
                    };
                    proof {
                        assert(self.file_views@[m as int].wf());
                    }
                    let ghost pre_views = self.file_views@;
                    let r = self.file_views[m].handle_event(Event::Mouse(translated));
                    proof {
                        assert(forall|k: int|
                            0 <= k < self.file_views@.len() && k != m
                                ==> #[trigger] self.file_views@[k] == pre_views[k]);
                        assert(self.wf());
                    }
                    return r;
                }
                return EventResponse::NoResponse;
            }
            proof {
                assert(hit_pane(bs, p, m + 1) == hit_pane(bs, p, 0));
            }
            m = m + 1;
        }
        EventResponse::NoResponse
    }

    /// Routes a mouse drag: while a divider is selected, a horizontal drag
    /// moves the shared edge between that pane and its right neighbour, and
    /// the move is rejected if it would make either side too narrow;
    /// otherwise a drag inside the active pane extends its selection.
    pub fn handle_mouse_drag(&mut self, event: MouseEvent) -> (resp: EventResponse)
        requires
            old(self).wf(),
        ensures
            final(self).wf(),
            viewer_mouse_drag_effect(*old(self), *final(self), event, resp),
    {
        if self.selected_border != NO_VIEW {
            // A divider drag moves the edge between two adjacent panes.
            if self.selected_border >= self.file_view_bounds.len() || self.selected_border + 1
                >= self.file_view_bounds.len() || self.selected_border + 1
                >= self.file_views.len() {
                // A divider with no right neighbour cannot move.
                return EventResponse::NoResponse;
            }
            let sb = self.selected_border;
            let mut left_bounds = self.file_view_bounds[sb];
            let mut right_bounds = self.file_view_bounds[sb + 1];
            if left_bounds.width < 1 {
                return EventResponse::NoResponse;
            }
            let col = event.column as usize;
            let edge = left_bounds.x.saturating_add(left_bounds.width);
            let divider = edge - 1;
            // Moving the border wall to the right.
            if col > divider {
                let delta = col - divider;
                if right_bounds.width.saturating_sub(delta) > 2 {
                    right_bounds.width = right_bounds.width - delta;
                    right_bounds.x = right_bounds.x.saturating_add(delta);
                    left_bounds.width = left_bounds.width.saturating_add(delta);
                    self.file_views[sb].set_wrap_width(left_bounds.width);
                    self.file_views[sb + 1].set_wrap_width(right_bounds.width);
                    self.file_view_bounds[sb] = left_bounds;
                    self.file_view_bounds[sb + 1] = right_bounds;
                    return EventResponse::RedrawDisplay;
                }
            }
            // Moving the border wall to the left.
            if col < divider {
                let delta = divider - col;
                if left_bounds.width.saturating_sub(delta) > 2 {
                    left_bounds.width = left_bounds.width - delta;
                    right_bounds.x = right_bounds.x.saturating_sub(delta);
                    right_bounds.width = right_bounds.width.saturating_add(delta);
                    self.file_views[sb].set_wrap_width(left_bounds.width);
                    self.file_views[sb + 1].set_wrap_width(right_bounds.width);
                    self.file_view_bounds[sb] = left_bounds;
                    self.file_view_bounds[sb + 1] = right_bounds;
                    return EventResponse::RedrawDisplay;
                }
            }
            // The border wall was not moved.
            return EventResponse::NoResponse;
        }
        // Only forward a drag that happens within the currently active pane.
        if self.active_view < self.file_view_bounds.len() && self.active_view
            < self.file_views.len() {
            let b = self.file_view_bounds[self.active_view];
            if b.contains_point((event.column as usize, event.row as usize))
                && self.file_views[self.active_view].wrap_width >= 2 {
                let translated = MouseEvent {
                    kind: event.kind,
                    column: event.column - (b.x as u16),
                    row: event.row - (b.y as u16),
                };
                let a = self.active_view;
                proof {
                    assert(self.file_views@[a as int].wf());
                }
                let ghost pre_views = self.file_views@;
                let r = self.file_views[a].handle_event(Event::Mouse(translated));
                proof {
                    assert(forall|k: int|
                        0 <= k < self.file_views@.len() && k != a
                            ==> #[trigger] self.file_views@[k] == pre_views[k]);
                    assert(self.wf());
                }
                return r;
            }
        }
        EventResponse::NoResponse
    }

    /// Routes one input event: mouse presses and drags go through the pane
    /// hit-testing, every other event goes to the active pane. With no
    /// active pane nothing happens.
    pub fn handle_event(&mut self, event: Event) -> (resp: EventResponse)
        requires
            old(self).wf(),
        ensures
            final(self).wf(),
            viewer_event_effect(*old(self), *final(self), event, resp),
    {
        if self.active_view == NO_VIEW {
            return EventResponse::NoResponse;
        }
        match event {
            Event::Mouse(mouse_event) => {
                match mouse_event.kind {
                    MouseEventKind::Down => self.handle_mouse_down(mouse_event),
                    MouseEventKind::Drag => self.handle_mouse_drag(mouse_event),
                    _ => EventResponse::NoResponse,
                }
            },
            _ => {
                if self.active_view < self.file_views.len() {
                    let a = self.active_view;
                    proof {
                        assert(self.file_views@[a as int].wf());
                    }
                    let ghost pre_views = self.file_views@;
                    let r = self.file_views[a].handle_event(event);
                    proof {
                        assert(forall|k: int|
                            0 <= k < self.file_views@.len() && k != a
                                ==> #[trigger] self.file_views@[k] == pre_views[k]);
                        assert(self.wf());
                    }
                    r
                } else {
                    EventResponse::NoResponse
                }
            },
        }
    }

    /// Forwards an undo or redo request to the active pane.
    pub fn send_msg(&mut self, msg: &EditMsg) -> (resp: EventResponse)
        requires
            old(self).wf(),
        ensures
            final(self).wf(),
            viewer_msg_effect(*old(self), *final(self), *msg, resp),
    {
        if self.active_view != NO_VIEW && self.active_view < self.file_views.len() {
            let a = self.active_view;
            proof {
                assert(self.file_views@[a as int].wf());
            }
            let ghost pre_views = self.file_views@;
            let r = self.file_views[a].send_msg(msg);
            proof {
                assert(forall|k: int|
                    0 <= k < self.file_views@.len() && k != a
                        ==> #[trigger] self.file_views@[k] == pre_views[k]);
                assert(self.wf());
            }
            r
        } else {
            EventResponse::NoResponse
        }
    }

    /// Renders every pane into the display at its rectangle.
    pub fn draw(&self, displ: &mut Display) -> (trace: Ghost<Seq<Display>>)
        requires
            old(displ).wf(),
        ensures
            final(displ).wf(),
            trace@.len() == self.file_views@.len() + 1,
            trace@[0] == *old(displ),
            trace@.last() == *final(displ),
            draw_trace_ok(trace@, self.file_views@, self.file_view_bounds@),
    {
        let total = self.file_views.len();
        let ghost mut trace: Seq<Display> = seq![*displ];
        let mut i: usize = 0;
        while i < total
            invariant
                i <= total,
                total == self.file_views@.len(),
                displ.wf(),
                trace.len() == i + 1,
                trace[0] == *old(displ),
                trace.last() == *displ,
                draw_trace_ok(trace, self.file_views@, self.file_view_bounds@),
            decreases total - i,
        {
            let ghost mid = *displ;
            if i < self.file_view_bounds.len() {
                let b = self.file_view_bounds[i];
                self.file_views[i].draw(&b, displ);
            }
            proof {
                trace = trace.push(*displ);
                assert(trace.last() == *displ);
                assert(trace[i as int] == mid);
                assert(draw_trace_ok(trace, self.file_views@, self.file_view_bounds@));
            }
            i = i + 1;
        }
        Ghost(trace)
    }

    /// The screen position of the active pane's cursor: the pane-relative
    /// wrapped cursor translated by the pane's rectangle, or the origin if
    /// no pane is active or the active pane has no usable rectangle.
    pub fn get_cursor_pos(&self) -> (r: (usize, usize))
        ensures
            ({
                let a = self.active_view as int;
                if self.active_view != NO_VIEW && a < self.file_views@.len() && a
                    < self.file_view_bounds@.len() && self.file_view_bounds@[a].width >= 2 {
                    let v = self.file_views@[a];
                    let b = self.file_view_bounds@[a];
                    let wrapped_col = v.cursor.0 as int % (b.width - 1);
                    &&& r.0 == sat_add(wrapped_col, b.x as int)
                    &&& r.1 == sat_add(
                        ({
                            let total = v.cursor.1 + crate::edit::wrap_sum(
                                v.filestate@,
                                v.rowoff as int,
                                v.cursor.1 as int,
                                b.width as int,
                            ) + v.cursor.0 as int / (b.width - 1);
                            if total > usize::MAX {
                                usize::MAX as int
                            } else {
                                total
                            }
                        }),
                        b.y as int,
                    )
                } else {
                    r == (0usize, 0usize)
                }
            }),
    {
        if self.active_view != NO_VIEW && self.active_view < self.file_views.len()
            && self.active_view < self.file_view_bounds.len() {
            let cur_bounds = self.file_view_bounds[self.active_view];
            if cur_bounds.width < 2 {
                return (0, 0);
            }
            let cur_view = &self.file_views[self.active_view];
            let cursor = cur_view.wrapped_cursor_coords(cur_bounds.width);
            (cursor.0.saturating_add(cur_bounds.x), cursor.1.saturating_add(cur_bounds.y))
        } else {
            (0, 0)
        }
    }
}

} // verus!
