//! Core of a multi-pane terminal text editor: a row-oriented text buffer,
//! an undo/redo command engine built on self-inverting edit operations,
//! an incremental cell-grid rendering surface, and the pane layout and
//! event-routing logic that ties cursor, selection and viewport state to
//! screen coordinates.
//!
//! All terminal and file I/O lives outside this crate; the library works
//! on plain values (rows of characters, coordinates, cells) only.

pub mod command;
pub mod controller;
pub mod coord;
pub mod display;
pub mod editor;
pub mod edit;
pub mod file;
pub mod fileviewer;
pub mod laws;
pub mod model;
pub mod status;
pub mod syntax;
pub mod text;
pub mod ui;
