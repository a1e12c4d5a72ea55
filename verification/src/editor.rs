//! The top-level editor: the display surface, the pane viewer and the
//! status bar, with the event routing between them.
//!
//! The editor owns all visible state. Its caller runs the event loop: it
//! reads terminal events, translates them into the editor's event
//! vocabulary, hands them to `handle_event`, and flushes the display to the
//! terminal when the response asks for a redraw.

use vstd::prelude::*;

use crate::display::Display;
use crate::edit::EditMsg;
use crate::file::FileState;
use crate::fileviewer::FileViewerComonent;
use crate::status::{StatusBarComponent, StatusMsg};
use crate::ui::{Event, EventResponse, KeyCode, KeyEvent, KeyModifiers, Rect, spec_contains};

verus! {

/// The editor's input mode.
#[derive(Debug, PartialEq, Eq, Structural, Clone, Copy)]
pub enum EditMode {
    /// Keys navigate and dispatch commands.
    Normal,
    /// Keys type into the active pane.
    Insert,
}

/// A message routed to one of the editor's components, dispatched by an
/// explicit tag.
pub enum EditorMsg {
    /// A status-bar message.
    Status(StatusMsg),
    /// An undo or redo request for the active pane.
    Edit(EditMsg),
}

/// Forwarding an event to the pane viewer: every other component stays as
/// it was and the viewer takes the event's stated effect.
pub open spec fn editor_fwd_effect(
    pre: TextEditor,
    post: TextEditor,
    evt: Event,
    resp: EventResponse,
) -> bool {
    &&& post.display == pre.display
    &&& post.status_bar == pre.status_bar
    &&& post.status_bar_bounds == pre.status_bar_bounds
    &&& post.file_viewer_bounds == pre.file_viewer_bounds
    &&& post.mode == pre.mode
    &&& post.quit_times == pre.quit_times
    &&& crate::fileviewer::viewer_event_effect(pre.file_viewer, post.file_viewer, evt, resp)
}

/// Handing an undo or redo message to the pane viewer: every other
/// component stays as it was.
pub open spec fn editor_msg_fwd_effect(
    pre: TextEditor,
    post: TextEditor,
    msg: EditMsg,
    resp: EventResponse,
) -> bool {
    &&& post.display == pre.display
    &&& post.status_bar == pre.status_bar
    &&& post.status_bar_bounds == pre.status_bar_bounds
    &&& post.file_viewer_bounds == pre.file_viewer_bounds
    &&& post.mode == pre.mode
    &&& post.quit_times == pre.quit_times
    &&& crate::fileviewer::viewer_msg_effect(pre.file_viewer, post.file_viewer, msg, resp)
}

/// The whole visible editor state: the screen grid, the panes and the
/// status bar with their rectangles, the quit countdown and the input mode.
pub struct TextEditor {
    /// The screen grid the components render into.
    pub display: Display,
    /// The panes.
    pub file_viewer: FileViewerComonent,
    /// The rectangle the panes tile.
    pub file_viewer_bounds: Rect,
    /// The status bar.
    pub status_bar: StatusBarComponent,
    /// The status bar's one-line rectangle.
    pub status_bar_bounds: Rect,
    /// How many more quit presses leave the editor.
    pub quit_times: u8,
    /// The input mode.
    pub mode: EditMode,
}

impl TextEditor {
    /// The display grid and every pane are well formed.
    pub open spec fn wf(&self) -> bool {
        &&& self.display.wf()
        &&& self.file_viewer.wf()
    }

    /// An editor over a blank screen of the given size, with no panes yet
    /// and in normal mode.
    pub fn new(width: usize, height: usize) -> (r: TextEditor)
        ensures
            r.wf(),
            r.display.width == width,
            r.display.height == height,
            r.file_viewer.file_views@.len() == 0,
            r.mode is Normal,
    {
        TextEditor {
            display: Display::new(width, height),
            file_viewer: FileViewerComonent::new(),
            file_viewer_bounds: Rect { x: 0, y: 0, width: 0, height: 0 },
            status_bar: StatusBarComponent::new(),
            status_bar_bounds: Rect { x: 0, y: 0, width: 0, height: 0 },
            quit_times: crate::controller::QUIT_TIMES,
            mode: EditMode::Normal,
        }
    }

    /// Adds one opened buffer as a new rightmost pane.
    pub fn open_file(&mut self, fs: FileState)
        requires
            old(self).wf(),
            fs.wf(),
        ensures
            final(self).wf(),
            final(self).file_viewer.file_views@.len() == old(self).file_viewer.file_views@.len()
                + 1,
    {
        self.file_viewer.add_file(fs);
    }

    /// Adds each opened buffer as a pane, in order.
    pub fn open_files(&mut self, files: Vec<FileState>)
        requires
            old(self).wf(),
            forall|k: int| 0 <= k < files@.len() ==> (#[trigger] files@[k]).wf(),
        ensures
            final(self).wf(),
            final(self).file_viewer.file_views@.len() == old(self).file_viewer.file_views@.len()
                + files@.len(),
    {
        self.file_viewer.add_files(files);
    }

    /// Lays the editor out for a screen of the given bounds: the bottom row
    /// is the status bar, the rest is tiled by the panes. A screen too
    /// narrow for the panes leaves their rectangles unchanged.
    pub fn resize(&mut self, bounds: &Rect)
        requires
            old(self).wf(),
            bounds.height >= 1,
            bounds.x == 0 && bounds.y == 0,
            bounds.width < usize::MAX,
        ensures
            final(self).wf(),
            final(self).display.width == bounds.width,
            final(self).display.height == bounds.height,
            final(self).status_bar_bounds == (Rect {
                x: 0,
                y: (bounds.height - 1) as usize,
                width: bounds.width,
                height: 1,
            }),
            final(self).file_viewer_bounds == (Rect {
                x: 0,
                y: 0,
                width: bounds.width,
                height: (bounds.height - 1) as usize,
            }),
            ({
                let n = old(self).file_viewer.file_views@.len();
                let fits = n == 0 || (n <= usize::MAX / 2 && bounds.width >= 1 && bounds.width - 1
                    >= 2 * n - 1);
                if fits {
                    &&& final(self).file_viewer.file_view_bounds@.len() == n
                    &&& crate::fileviewer::chained(final(self).file_viewer.file_view_bounds@)
                    &&& forall|k: int|
                        0 <= k < n ==> (#[trigger] final(self).file_viewer.file_view_bounds@[k]).width == crate::fileviewer::layout_width(
                            bounds.width + 1,
                            k,
                            n as int,
                        )
                    &&& n >= 1 ==> crate::fileviewer::sum_widths(
                        final(self).file_viewer.file_view_bounds@,
                    ) == bounds.width + 1
                    &&& forall|k: int|
                        0 <= k < n ==> (#[trigger] final(self).file_viewer.file_views@[k]).wrap_width
                            == final(self).file_viewer.file_view_bounds@[k].width
                } else {
                    final(self).file_viewer == old(self).file_viewer
                }
            }),
    {
        let width = bounds.width;
        let height = bounds.height;
        self.display.resize(width, height);
        self.status_bar_bounds = Rect { x: 0, y: height - 1, width, height: 1 };
        self.file_viewer_bounds = Rect { x: 0, y: 0, width, height: height - 1 };
        let n = self.file_viewer.file_views.len();
        if n == 0 || (n <= usize::MAX / 2 && width >= 1 && width - 1 >= 2 * n - 1) {
            proof {
                assert(n >= 1 ==> width + 1 >= 2 * n);
            }
            self.file_viewer.resize_file_views(&self.file_viewer_bounds);
        }
    }

    /// Routes a component message by its tag: status messages to the status
    /// bar, undo and redo requests to the active pane.
    pub fn send_msg(&mut self, msg: EditorMsg) -> (resp: EventResponse)
        requires
            old(self).wf(),
        ensures
            final(self).wf(),
            msg matches EditorMsg::Status(s) ==> final(self).status_bar.status_msg == s && final(self).file_viewer == old(self).file_viewer && resp == EventResponse::RedrawDisplay,
            msg matches EditorMsg::Edit(e) ==> final(self).status_bar == old(self).status_bar
                && crate::fileviewer::viewer_msg_effect(
                old(self).file_viewer,
                final(self).file_viewer,
                msg->Edit_0,
                resp,
            ),
            final(self).display == old(self).display,
            final(self).mode == old(self).mode,
    {
        match msg {
            EditorMsg::Status(s) => self.status_bar.send_msg(s),
            EditorMsg::Edit(e) => self.file_viewer.send_msg(&e),
        }
    }

    /// Routes one input event: a resize relays the whole editor out, a quit
    /// chord leaves, mouse events go to the pane they hit, Escape returns to
    /// normal mode, arrows always move the cursor, and the rest depends on
    /// the mode — insert mode types into the active pane, normal mode
    /// dispatches `u` as undo, a control-r as redo and `i` to enter insert
    /// mode.
    pub fn handle_event(&mut self, evt: Event) -> (resp: EventResponse)
        requires
            old(self).wf(),
        ensures
            final(self).wf(),
            match evt {
                Event::Resize(w, h) => {
                    &&& resp == EventResponse::RedrawDisplay
                    &&& (h >= 1 && w < usize::MAX ==> final(self).display.width == w && final(self).display.height == h && final(self).status_bar_bounds == (Rect {
                        x: 0,
                        y: (h - 1) as usize,
                        width: w,
                        height: 1,
                    }) && final(self).file_viewer_bounds == (Rect {
                        x: 0,
                        y: 0,
                        width: w,
                        height: (h - 1) as usize,
                    }))
                    &&& (!(h >= 1 && w < usize::MAX) ==> *final(self) == *old(self))
                },
                Event::Key(k) => {
                    if k.modifiers == KeyModifiers::Control && k.code == KeyCode::Char('q') {
                        resp == EventResponse::Quit && *final(self) == *old(self)
                    } else if k.code == KeyCode::Esc {
                        &&& final(self).mode is Normal
                        &&& final(self).display == old(self).display
                        &&& final(self).file_viewer == old(self).file_viewer
                        &&& final(self).status_bar == old(self).status_bar
                        &&& resp == EventResponse::NoResponse
                    } else if k.code == KeyCode::Up || k.code == KeyCode::Down || k.code
                        == KeyCode::Left || k.code == KeyCode::Right {
                        editor_fwd_effect(*old(self), *final(self), evt, resp)
                    } else if old(self).mode == EditMode::Insert {
                        editor_fwd_effect(*old(self), *final(self), evt, resp)
                    } else if k.modifiers == KeyModifiers::Control && k.code == KeyCode::Char('r') {
                        editor_msg_fwd_effect(*old(self), *final(self), EditMsg::Redo, resp)
                    } else if k.modifiers != KeyModifiers::Control && k.code == KeyCode::Char('u') {
                        editor_msg_fwd_effect(*old(self), *final(self), EditMsg::Undo, resp)
                    } else if k.modifiers != KeyModifiers::Control && k.code == KeyCode::Char('i') {
                        &&& final(self).mode is Insert
                        &&& final(self).display == old(self).display
                        &&& final(self).file_viewer == old(self).file_viewer
                        &&& final(self).status_bar == old(self).status_bar
                        &&& resp == EventResponse::NoResponse
                    } else {
                        *final(self) == *old(self) && resp == EventResponse::NoResponse
                    }
                },
                Event::Mouse(m) => {
                    if spec_contains(
                        old(self).file_viewer_bounds,
                        (m.column as usize, m.row as usize),
                    ) {
                        editor_fwd_effect(*old(self), *final(self), evt, resp)
                    } else {
                        *final(self) == *old(self) && resp == EventResponse::NoResponse
                    }
                },
            },
    {
        // Events handled the same way in every mode.
        match evt {
            Event::Resize(width, height) => {
                if height >= 1 && width < usize::MAX {
                    self.resize(&Rect { x: 0, y: 0, width, height });
                }
                return EventResponse::RedrawDisplay;
            },
            Event::Key(k) => {
                if k.modifiers == KeyModifiers::Control && k.code == KeyCode::Char('q') {
                    return EventResponse::Quit;
                }
                if k.code == KeyCode::Esc {
                    self.mode = EditMode::Normal;
                    return EventResponse::NoResponse;
                }
                if k.code == KeyCode::Up || k.code == KeyCode::Down || k.code == KeyCode::Left
                    || k.code == KeyCode::Right {
                    return self.file_viewer.handle_event(evt);
                }
            },
            Event::Mouse(m) => {
                // Mouse events go to the component they land in.
                if self.file_viewer_bounds.contains_point((m.column as usize, m.row as usize)) {
                    return self.file_viewer.handle_event(evt);
                }
                return EventResponse::NoResponse;
            },
        }
        // Mode-specific events.
        if self.mode == EditMode::Insert {
            self.handle_insert_event(evt)
        } else {
            self.handle_normal_event(evt)
        }
    }

    /// In normal mode, `u` undoes one step on the active pane, a control-r
    /// redoes one, and `i` enters insert mode.
    fn handle_normal_event(&mut self, evt: Event) -> (resp: EventResponse)
        requires
            old(self).wf(),
        ensures
            final(self).wf(),
            match evt {
                Event::Key(k) => {
                    if k.modifiers == KeyModifiers::Control && k.code == KeyCode::Char('r') {
                        editor_msg_fwd_effect(*old(self), *final(self), EditMsg::Redo, resp)
                    } else if k.modifiers != KeyModifiers::Control && k.code == KeyCode::Char('u') {
                        editor_msg_fwd_effect(*old(self), *final(self), EditMsg::Undo, resp)
                    } else if k.modifiers != KeyModifiers::Control && k.code == KeyCode::Char('i') {
                        &&& final(self).mode is Insert
                        &&& final(self).display == old(self).display
                        &&& final(self).file_viewer == old(self).file_viewer
                        &&& final(self).status_bar == old(self).status_bar
                        &&& resp == EventResponse::NoResponse
                    } else {
                        *final(self) == *old(self) && resp == EventResponse::NoResponse
                    }
                },
                _ => *final(self) == *old(self) && resp == EventResponse::NoResponse,
            },
    {
        match evt {
            Event::Key(k) => {
                if k.modifiers == KeyModifiers::Control && k.code == KeyCode::Char('r') {
                    return self.file_viewer.send_msg(&EditMsg::Redo);
                }
                if k.code == KeyCode::Char('u') && k.modifiers != KeyModifiers::Control {
                    return self.file_viewer.send_msg(&EditMsg::Undo);
                }
                if k.code == KeyCode::Char('i') && k.modifiers != KeyModifiers::Control {
                    self.mode = EditMode::Insert;
                    return EventResponse::NoResponse;
                }
                EventResponse::NoResponse
            },
            _ => EventResponse::NoResponse,
        }
    }

    /// In insert mode every remaining event goes to the active pane.
    fn handle_insert_event(&mut self, evt: Event) -> (resp: EventResponse)
        requires
            old(self).wf(),
        ensures
            final(self).wf(),
            editor_fwd_effect(*old(self), *final(self), evt, resp),
    {
        self.file_viewer.handle_event(evt)
    }

    /// Renders the status bar and every pane into the display; the dirty
    /// rows are flushed to the terminal by the caller.
    pub fn draw_editor(&mut self) -> (trace: Ghost<Seq<Display>>)
        requires
            old(self).wf(),
            old(self).status_bar_bounds.height >= 1,
        ensures
            final(self).wf(),
            final(self).file_viewer == old(self).file_viewer,
            final(self).status_bar == old(self).status_bar,
            final(self).status_bar_bounds == old(self).status_bar_bounds,
            final(self).file_viewer_bounds == old(self).file_viewer_bounds,
            final(self).mode == old(self).mode,
            trace@.len() == old(self).file_viewer.file_views@.len() + 2,
            trace@[0] == old(self).display,
            crate::status::bar_draw_effect(
                trace@[0],
                trace@[1],
                old(self).status_bar.status_msg,
                old(self).status_bar_bounds,
            ),
            crate::fileviewer::draw_trace_ok(
                trace@.skip(1),
                old(self).file_viewer.file_views@,
                old(self).file_viewer.file_view_bounds@,
            ),
            trace@.last() == final(self).display,
    {
        let ghost g0 = self.display;
        let status_bounds = self.status_bar_bounds;
        self.status_bar.draw(&status_bounds, &mut self.display);
        let viewer_trace = self.file_viewer.draw(&mut self.display);
        let ghost combined = seq![g0] + viewer_trace@;
        proof {
            assert(combined.skip(1) =~~= viewer_trace@);
            assert(combined[0] == g0);
            assert(combined[1] == viewer_trace@[0]);
            assert(combined.last() == viewer_trace@.last());
        }
        Ghost(combined)
    }

    /// The screen position of the active pane's cursor.
    pub fn draw_cursor(&self) -> (r: (usize, usize))
    {
        self.file_viewer.get_cursor_pos()
    }
}

} // verus!
