//! The pane layout: width conservation, hit testing, divider drags and the
//! cursor's screen position.

use ginkgo::file::FileState;
use ginkgo::fileviewer::{FileViewerComonent, NO_VIEW};
use ginkgo::ui::{Event, MouseEvent, MouseEventKind, Rect};

fn chars(s: &str) -> Vec<char> {
    s.chars().collect()
}

fn buffer(rows: &[&str]) -> FileState {
    let mut fs = FileState::new();
    for r in rows {
        fs.append_row(chars(r));
    }
    fs
}

fn viewer(panes: usize) -> FileViewerComonent {
    let mut v = FileViewerComonent::new();
    for _ in 0..panes {
        v.add_file(buffer(&["content"]));
    }
    v
}

fn widths(v: &FileViewerComonent) -> Vec<usize> {
    v.file_view_bounds.iter().map(|b| b.width).collect()
}

#[test]
fn layout_widths_sum_to_outer_width_plus_one() {
    // Adjacent panes share their border column, so the widths double count
    // one column per shared edge: the sum is the outer width plus one.
    for n in 1..=5usize {
        let mut v = viewer(n);
        let outer = Rect { x: 0, y: 0, width: 20, height: 10 };
        v.resize_file_views(&outer);
        let ws = widths(&v);
        assert_eq!(ws.len(), n);
        let sum: usize = ws.iter().sum();
        assert_eq!(sum, 21);
        assert!(ws.iter().all(|w| *w >= 2));
    }
}

#[test]
fn layout_two_panes_at_width_ten() {
    // The rightmost pane is sized first (its share of the budget), the
    // leftmost absorbs the remainder.
    let mut v = viewer(2);
    v.resize_file_views(&Rect { x: 0, y: 0, width: 10, height: 8 });
    assert_eq!(v.file_view_bounds[0], Rect { x: 0, y: 0, width: 6, height: 8 });
    assert_eq!(v.file_view_bounds[1], Rect { x: 6, y: 0, width: 5, height: 8 });
}

#[test]
fn layout_rectangles_tile_edge_to_edge() {
    let mut v = viewer(3);
    let outer = Rect { x: 2, y: 1, width: 10, height: 5 };
    v.resize_file_views(&outer);
    let b = &v.file_view_bounds;
    assert_eq!(b[0].x, 2);
    assert_eq!(b[1].x, b[0].x + b[0].width);
    assert_eq!(b[2].x, b[1].x + b[1].width);
    assert_eq!(b[2].x + b[2].width, 2 + 10 + 1);
    assert!(b.iter().all(|r| r.y == 1 && r.height == 5));
}

#[test]
fn layout_updates_every_pane_wrap_width() {
    let mut v = viewer(2);
    v.resize_file_views(&Rect { x: 0, y: 0, width: 9, height: 4 });
    for (view, bounds) in v.file_views.iter().zip(v.file_view_bounds.iter()) {
        assert_eq!(view.wrap_width, bounds.width);
    }
}

#[test]
fn minimum_pane_width_is_two() {
    let mut v = viewer(3);
    v.resize_file_views(&Rect { x: 0, y: 0, width: 5, height: 4 });
    let ws = widths(&v);
    assert!(ws.iter().all(|w| *w >= 2));
    assert_eq!(ws.iter().sum::<usize>(), 6);
}

#[test]
fn adding_files_activates_the_last_one() {
    let mut v = FileViewerComonent::new();
    assert_eq!(v.active_view, NO_VIEW);
    v.add_files(vec![buffer(&["a"]), buffer(&["b"])]);
    assert_eq!(v.file_views.len(), 2);
    assert_eq!(v.active_view, 1);
}

#[test]
fn mouse_down_on_border_column_selects_the_divider() {
    let mut v = viewer(2);
    v.resize_file_views(&Rect { x: 0, y: 0, width: 10, height: 4 });
    let border_col = (v.file_view_bounds[0].x + v.file_view_bounds[0].width - 1) as u16;
    v.handle_event(Event::Mouse(MouseEvent {
        kind: MouseEventKind::Down,
        column: border_col,
        row: 1,
    }));
    assert_eq!(v.selected_border, 0);
}

#[test]
fn mouse_down_on_inactive_pane_activates_it() {
    let mut v = viewer(2);
    v.resize_file_views(&Rect { x: 0, y: 0, width: 10, height: 4 });
    assert_eq!(v.active_view, 1);
    v.handle_event(Event::Mouse(MouseEvent { kind: MouseEventKind::Down, column: 0, row: 0 }));
    assert_eq!(v.active_view, 0);
    assert_eq!(v.selected_border, NO_VIEW);
}

#[test]
fn mouse_down_inside_active_pane_moves_its_cursor() {
    let mut v = viewer(1);
    v.resize_file_views(&Rect { x: 0, y: 0, width: 12, height: 4 });
    v.handle_event(Event::Mouse(MouseEvent { kind: MouseEventKind::Down, column: 3, row: 0 }));
    assert_eq!(v.file_views[0].cursor, (3, 0));
}

#[test]
fn divider_drag_moves_the_shared_edge() {
    let mut v = viewer(2);
    v.resize_file_views(&Rect { x: 0, y: 0, width: 12, height: 4 });
    // Panes: left seven wide at zero, right six wide at seven; divider at six.
    let left0 = v.file_view_bounds[0].width;
    let right0 = v.file_view_bounds[1].width;
    let border_col = (v.file_view_bounds[0].x + left0 - 1) as u16;
    v.handle_event(Event::Mouse(MouseEvent {
        kind: MouseEventKind::Down,
        column: border_col,
        row: 1,
    }));
    assert_eq!(v.selected_border, 0);
    v.handle_event(Event::Mouse(MouseEvent {
        kind: MouseEventKind::Drag,
        column: border_col - 2,
        row: 1,
    }));
    assert_eq!(v.file_view_bounds[0].width, left0 - 2);
    assert_eq!(v.file_view_bounds[1].width, right0 + 2);
    assert_eq!(
        v.file_view_bounds[1].x,
        v.file_view_bounds[0].x + v.file_view_bounds[0].width,
    );
    assert_eq!(v.file_views[0].wrap_width, left0 - 2);
    assert_eq!(v.file_views[1].wrap_width, right0 + 2);
}

#[test]
fn divider_drag_rejects_too_narrow_panes() {
    let mut v = viewer(2);
    v.resize_file_views(&Rect { x: 0, y: 0, width: 8, height: 4 });
    let left0 = v.file_view_bounds[0].width;
    let right0 = v.file_view_bounds[1].width;
    let border_col = (v.file_view_bounds[0].x + left0 - 1) as u16;
    v.handle_event(Event::Mouse(MouseEvent {
        kind: MouseEventKind::Down,
        column: border_col,
        row: 1,
    }));
    // Dragging all the way left would shrink the left pane below three
    // columns: the move is rejected.
    v.handle_event(Event::Mouse(MouseEvent { kind: MouseEventKind::Drag, column: 0, row: 1 }));
    assert_eq!(v.file_view_bounds[0].width, left0);
    assert_eq!(v.file_view_bounds[1].width, right0);
}

#[test]
fn cursor_position_translates_by_the_pane_rectangle() {
    let mut v = viewer(2);
    v.resize_file_views(&Rect { x: 0, y: 0, width: 15, height: 5 });
    // The active pane is the second one; put its cursor at column two.
    let a = v.active_view;
    v.file_views[a].cursor = (2, 0);
    let b = v.file_view_bounds[a];
    assert_eq!(v.get_cursor_pos(), (b.x + 2, b.y));
}

#[test]
fn events_without_an_active_pane_do_nothing() {
    let mut v = FileViewerComonent::new();
    let resp = v.handle_event(Event::Mouse(MouseEvent {
        kind: MouseEventKind::Down,
        column: 0,
        row: 0,
    }));
    assert!(matches!(resp, ginkgo::ui::EventResponse::NoResponse));
}

#[test]
fn cursor_position_with_no_active_pane_is_origin() {
    let v = FileViewerComonent::new();
    assert_eq!(v.get_cursor_pos(), (0, 0));
}
