use cosmetics::fisheye::{
    active_clamped, centre_start, draw_order, effective_start, move_focal, page, reveal_item,
    wheel_selection, window_span, NavKey, RowClick, RowKey, RowKeyOutcome, RowWindow, Side,
};

#[test]
fn active_is_clamped() {
    assert_eq!(active_clamped(7, 3), 2);
    assert_eq!(active_clamped(1, 3), 1);
    assert_eq!(active_clamped(5, 0), 0);
}

#[test]
fn draw_order_matches_stable_sort() {
    for n in 0..8usize {
        for start in 0..3usize {
            for pivot in 0..12usize {
                let mut expected: Vec<usize> = (start..start + n).collect();
                expected.sort_by_key(|&i| -(i as i64 - pivot as i64).abs());
                assert_eq!(draw_order(start, n, pivot), expected);
            }
        }
    }
}

#[test]
fn pivot_drawn_last() {
    let o = draw_order(0, 5, 2);
    assert_eq!(o, vec![0, 4, 1, 3, 2]);
}

#[test]
fn window_helpers() {
    assert_eq!(centre_start(10, 4, 5), 3);
    assert_eq!(centre_start(10, 4, 9), 6);
    assert_eq!(centre_start(10, 4, 1), 0);
    assert_eq!(effective_start(true, 9, 10, 4, 0), 6);
    assert_eq!(effective_start(false, 9, 10, 4, 5), 3);
    assert_eq!(window_span(10, 4, 9), (6, 6, 0));
    assert_eq!(window_span(10, 4, 2), (2, 2, 4));
    assert_eq!(page(3, 10, 4, Side::Left, 4), 0);
    assert_eq!(page(3, 10, 4, Side::Right, 4), 6);
    assert_eq!(page(1, 10, 4, Side::Right, 1), 2);
    assert_eq!(reveal_item(3, 10, 4, 1), 1);
    assert_eq!(reveal_item(3, 10, 4, 8), 5);
    assert_eq!(reveal_item(3, 10, 4, 4), 3);
    assert_eq!(move_focal(0, 5, NavKey::Left), 0);
    assert_eq!(move_focal(4, 5, NavKey::Right), 4);
    assert_eq!(move_focal(2, 5, NavKey::End), 4);
    assert_eq!(move_focal(2, 5, NavKey::Home), 0);
}

#[test]
fn wheel_selection_steps_and_clamps() {
    assert_eq!(wheel_selection(0, 5, true), 0);
    assert_eq!(wheel_selection(3, 5, true), 2);
    assert_eq!(wheel_selection(4, 5, false), 4);
    assert_eq!(wheel_selection(9, 5, true), 4);
    assert_eq!(wheel_selection(2, 5, false), 3);
}

#[test]
fn row_window_hover_click_and_leave() {
    let mut w = RowWindow::new();
    w.hover(20, 5, 10);
    assert!(w.is_inside);
    assert_eq!(w.window_start, 8);
    assert_eq!(w.click(20, 5, Some(Side::Right), None), RowClick::Paged);
    assert_eq!(w.window_start, 13);
    assert_eq!(w.click(20, 5, None, Some(14)), RowClick::Select(14));
    assert!(w.wheel(20, 5, true));
    assert_eq!(w.window_start, 12);
    assert!(w.leave(20, 5, 10));
    assert_eq!(w.window_start, 8);
    assert!(!w.leave(20, 5, 10));
    assert!(!w.wheel(20, 5, true));
}

#[test]
fn row_window_keyboard() {
    let mut w = RowWindow::new();
    assert_eq!(w.key(20, 5, RowKey::Right), RowKeyOutcome::Ignored);
    w.is_focused = true;
    assert!(w.sync_focus(20, 5, 10));
    assert_eq!((w.keyboard_focal, w.window_start), (10, 8));
    assert!(!w.sync_focus(20, 5, 10));
    assert_eq!(w.key(20, 5, RowKey::End), RowKeyOutcome::Moved);
    assert_eq!((w.keyboard_focal, w.window_start), (19, 15));
    assert_eq!(w.key(20, 5, RowKey::Home), RowKeyOutcome::Moved);
    assert_eq!((w.keyboard_focal, w.window_start), (0, 0));
    assert_eq!(w.key(20, 5, RowKey::Activate), RowKeyOutcome::Select(0));
    assert_eq!(w.key(20, 5, RowKey::Other), RowKeyOutcome::Ignored);
    w.is_focused = false;
    assert!(w.sync_focus(20, 5, 10));
    assert_eq!(w.window_start, 8);
}

#[test]
fn row_window_dwell_pages() {
    let mut w = RowWindow::new();
    assert!(!w.dwell(20, 5, Some(Side::Left), true));
    w.hover(20, 5, 10);
    assert!(w.dwell(20, 5, Some(Side::Left), false));
    assert!(w.paging);
    assert!(!w.dwell(20, 5, Some(Side::Left), false));
    assert_eq!(w.window_start, 8);
    assert!(w.dwell(20, 5, Some(Side::Left), true));
    assert_eq!(w.window_start, 7);
    assert!(!w.dwell(20, 5, None, true));
    assert!(!w.paging);
}
