//! Screen geometry and the abstract event vocabulary.
//!
//! The editor consumes key presses, mouse presses/drags/releases and resize
//! events, and answers with a response that tells the caller whether to move
//! the cursor, redraw, or quit. These types carry no terminal-protocol
//! detail: the surrounding program translates its input library's events
//! into this vocabulary.

use vstd::prelude::*;

verus! {

/// What the handler of an event asks its caller to do next.
pub enum EventResponse {
    /// Nothing visible changed.
    NoResponse,
    /// Only the cursor moved: reposition it without redrawing cells.
    MoveCursor,
    /// Cell content changed: regenerate and redraw.
    RedrawDisplay,
    /// Leave the editor.
    Quit,
}

/// A key, as the editor distinguishes them.
#[derive(Clone, Copy, PartialEq, Eq, Structural)]
pub enum KeyCode {
    Up,
    Down,
    Left,
    Right,
    Delete,
    Backspace,
    Enter,
    Esc,
    PageUp,
    PageDown,
    Char(char),
}

/// The modifier held during a key press, as far as the editor cares.
#[derive(Clone, Copy, PartialEq, Eq, Structural)]
pub enum KeyModifiers {
    Plain,
    Control,
    Other,
}

/// One key press.
#[derive(Clone, Copy, PartialEq, Eq, Structural)]
pub struct KeyEvent {
    /// The key pressed.
    pub code: KeyCode,
    /// The modifier held.
    pub modifiers: KeyModifiers,
}

/// What the mouse did.
#[derive(Clone, Copy, PartialEq, Eq, Structural)]
pub enum MouseEventKind {
    Down,
    Up,
    Drag,
    Moved,
    ScrollDown,
    ScrollUp,
}

/// One mouse event, at a screen cell position.
#[derive(Clone, Copy, PartialEq, Eq, Structural)]
pub struct MouseEvent {
    /// What the mouse did.
    pub kind: MouseEventKind,
    /// The screen column the event happened at.
    pub column: u16,
    /// The screen row the event happened at.
    pub row: u16,
}

/// One input event.
#[derive(Clone, Copy, PartialEq, Eq, Structural)]
pub enum Event {
    /// A key press.
    Key(KeyEvent),
    /// A mouse press, release, drag, move or scroll.
    Mouse(MouseEvent),
    /// The terminal was resized to the given width and height.
    Resize(usize, usize),
}

/// A rectangle in terminal cell units, used both for pane viewports and for
/// grid sub-regions.
#[derive(Debug, Clone, Copy, Hash, PartialEq, Eq, Structural)]
pub struct Rect {
    /// The leftmost column.
    pub x: usize,
    /// The topmost row.
    pub y: usize,
    /// The width in columns.
    pub width: usize,
    /// The height in rows.
    pub height: usize,
}

/// The half-open bounds test: the point lies inside the rectangle.
pub open spec fn spec_contains(r: Rect, point: (usize, usize)) -> bool {
    &&& point.0 >= r.x
    &&& (point.0 as int) < r.x + r.width
    &&& point.1 >= r.y
    &&& (point.1 as int) < r.y + r.height
}

impl Rect {
    /// The zero rectangle.
    pub fn default() -> (r: Rect)
        ensures
            r.x == 0 && r.y == 0 && r.width == 0 && r.height == 0,
    {
        Rect { x: 0, y: 0, width: 0, height: 0 }
    }

    /// Returns whether the point lies inside the rectangle; the right and
    /// bottom edges are outside.
    pub fn contains_point(&self, point: (usize, usize)) -> (r: bool)
        ensures
            r == spec_contains(*self, point),
    {
        point.0 >= self.x && point.0 - self.x < self.width && point.1 >= self.y && point.1 - self.y
            < self.height
    }
}

} // verus!
