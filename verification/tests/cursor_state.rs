use hoditor::cursor::{Cursor, CursorStyle, Position, SCROLL_HEIGHT};
use hoditor::state::{Mode, State};

#[test]
fn new_cursor_is_a_block_at_the_origin() {
    let cursor = Cursor::new();
    assert_eq!(cursor.pos(), Position { row: 0, col: 0 });
    assert_eq!(cursor.row(), 0);
    assert_eq!(cursor.col(), 0);
    assert_eq!(cursor.style(), CursorStyle::Block);
}

#[test]
fn cursor_moves_by_raw_deltas() {
    let mut cursor = Cursor::new();
    cursor.move_down(5);
    cursor.move_right(7);
    assert_eq!(cursor.pos(), Position { row: 5, col: 7 });
    cursor.move_up(2);
    cursor.move_left(3);
    assert_eq!(cursor.pos(), Position { row: 3, col: 4 });
    cursor.move_up(3);
    cursor.move_left(4);
    assert_eq!(cursor.pos(), Position { row: 0, col: 0 });
}

#[test]
fn cursor_is_set_unconditionally() {
    let mut cursor = Cursor::new();
    cursor.move_to(10, 20);
    assert_eq!(cursor.pos(), Position { row: 10, col: 20 });
    cursor.move_to_col(3);
    assert_eq!(cursor.pos(), Position { row: 10, col: 3 });
    cursor.set_row(1);
    assert_eq!(cursor.pos(), Position { row: 1, col: 3 });
    cursor.set_col(usize::MAX);
    assert_eq!(cursor.pos(), Position { row: 1, col: usize::MAX });
}

#[test]
fn cursor_style_is_kept_across_moves() {
    let mut cursor = Cursor::new();
    cursor.set_style(CursorStyle::Bar);
    cursor.move_to(1, 2);
    cursor.move_down(1);
    assert_eq!(cursor.style(), CursorStyle::Bar);
    assert_eq!(cursor.pos(), Position { row: 2, col: 2 });
    cursor.set_style(CursorStyle::Block);
    assert_eq!(cursor.style(), CursorStyle::Block);
}

#[test]
fn scroll_margin_is_fifteen_rows() {
    assert_eq!(SCROLL_HEIGHT, 15);
}

#[test]
fn new_state_is_normal_and_owes_a_render() {
    let state = State::new();
    assert_eq!(state.mode(), Mode::Normal);
    assert!(state.should_render());
    assert!(!state.should_terminate());
}

#[test]
fn state_flags_are_set_one_by_one() {
    let mut state = State::new();
    state.set_should_render(false);
    assert!(!state.should_render());
    state.set_mode(Mode::Edit);
    assert_eq!(state.mode(), Mode::Edit);
    assert!(!state.should_render());
    state.terminate_app();
    assert!(state.should_terminate());
    assert_eq!(state.mode(), Mode::Edit);
    state.set_mode(Mode::Cmd);
    assert_eq!(state.mode(), Mode::Cmd);
    assert!(state.should_terminate());
}
