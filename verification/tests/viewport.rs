use hoditor::app::{Viewport, UI};

fn updated(offset: usize, height: usize, row: usize, total: usize) -> usize {
    let mut viewport = Viewport { height, offset };
    viewport.update(row, total);
    assert_eq!(viewport.height, height);
    viewport.offset
}

#[test]
fn layout_measures() {
    assert_eq!(UI::STATUS_BAR_HEIGHT, 2);
    assert_eq!(UI::SCROLL_HEIGHT, 15);
}

#[test]
fn new_viewport_leaves_room_for_the_status_bar() {
    let viewport = Viewport::new(40);
    assert_eq!(viewport.height, 38);
    assert_eq!(viewport.offset, 0);
    assert_eq!(Viewport::new(2).height, 0);
}

#[test]
fn cursor_near_the_top_pulls_the_window_up() {
    assert_eq!(updated(30, 40, 40, 200), 25);
    assert_eq!(updated(30, 40, 44, 200), 29);
    assert_eq!(updated(30, 40, 15, 200), 0);
    assert_eq!(updated(30, 40, 16, 200), 1);
}

#[test]
fn cursor_in_the_first_rows_puts_the_window_at_the_top() {
    assert_eq!(updated(30, 40, 0, 200), 0);
    assert_eq!(updated(3, 40, 14, 200), 0);
    assert_eq!(updated(0, 40, 9, 10), 0);
}

#[test]
fn cursor_near_the_bottom_pulls_the_window_down() {
    assert_eq!(updated(30, 40, 55, 200), 30);
    assert_eq!(updated(30, 40, 56, 200), 31);
    assert_eq!(updated(30, 40, 100, 200), 75);
}

#[test]
fn window_stops_at_the_end_of_the_text() {
    assert_eq!(updated(150, 40, 190, 200), 160);
    assert_eq!(updated(150, 40, 199, 200), 160);
    assert_eq!(updated(150, 40, 184, 200), 159);
    assert_eq!(updated(150, 40, 185, 200), 160);
}

#[test]
fn cursor_in_the_middle_leaves_the_window() {
    assert_eq!(updated(30, 40, 45, 200), 30);
    assert_eq!(updated(30, 40, 54, 200), 30);
}

#[test]
fn short_text_keeps_the_window_at_the_top() {
    assert_eq!(updated(0, 38, 25, 30), 0);
    assert_eq!(updated(0, 38, 29, 30), 0);
    assert_eq!(updated(0, 38, 20, 38), 0);
}

#[test]
fn offset_stays_in_range_and_cursor_visible() {
    let height = 20;
    for total in [1usize, 5, 19, 20, 21, 35, 36, 60, 200] {
        let max = total.saturating_sub(height);
        for offset in 0..=max {
            for row in 0..total {
                let next = updated(offset, height, row, total);
                assert!(next <= max);
                assert!(next <= row && row < next + height);
            }
        }
    }
}

#[test]
fn narrow_window_may_lose_the_cursor() {
    assert_eq!(updated(45, 5, 50, 100), 35);
}

#[test]
fn update_never_overflows() {
    assert_eq!(
        updated(usize::MAX, usize::MAX, usize::MAX, usize::MAX),
        usize::MAX - 15
    );
    assert_eq!(updated(0, 0, usize::MAX, usize::MAX), usize::MAX);
    assert_eq!(updated(usize::MAX, 10, 0, 5), 0);
    assert_eq!(updated(0, usize::MAX, 100, 5), 0);
}
