use hoditor::app::{Context, Viewport};
use hoditor::buffer::{Buffer, BufferError};
use hoditor::cursor::{CursorStyle, Position};
use hoditor::executor::{Effect, Outcome, TAB_WIDTH};
use hoditor::input_handler::Command;
use hoditor::state::Mode;

fn context_of(lines: &[&str], height: usize) -> Context {
    let buffer = Buffer::from_lines(lines.iter().map(|line| line.to_string()).collect());
    Context::new(
        buffer,
        Viewport { height, offset: 0 },
        String::from("notes.txt"),
    )
}

fn numbered(count: usize, height: usize) -> Context {
    let lines: Vec<String> = (0..count).map(|i| format!("line {}", i)).collect();
    Context::new(
        Buffer::from_lines(lines),
        Viewport { height, offset: 0 },
        String::from("notes.txt"),
    )
}

fn lines_in(context: &Context) -> Vec<String> {
    (0..context.buffer.len())
        .map(|row| context.buffer.get(row).unwrap().clone())
        .collect()
}

fn rendered() -> Result<Outcome, BufferError> {
    Ok(Outcome { render: true, effect: Effect::Nothing })
}

fn quiet() -> Result<Outcome, BufferError> {
    Ok(Outcome { render: false, effect: Effect::Nothing })
}

#[test]
fn new_context_is_well_formed() {
    let context = context_of(&["abc"], 10);
    assert_eq!(context.check(), Ok(()));
    assert_eq!(context.cursor.pos(), Position { row: 0, col: 0 });
    assert_eq!(context.cursor.style(), CursorStyle::Block);
    assert_eq!(context.app_state.mode(), Mode::Normal);
    assert!(context.app_state.should_render());
    assert_eq!(context.file_name, "notes.txt");
}

#[test]
fn insert_newline_splits_the_line() {
    let mut context = context_of(&["abcdef"], 10);
    context.cursor.move_to(0, 3);
    assert_eq!(Command::InsertNewLine.execute(&mut context), rendered());
    assert_eq!(lines_in(&context), vec!["abc", "def"]);
    assert_eq!(context.cursor.pos(), Position { row: 1, col: 0 });
}

#[test]
fn insert_newline_at_the_end_of_a_line_opens_an_empty_one() {
    let mut context = context_of(&["abc", "de"], 10);
    context.cursor.move_to(0, 3);
    assert_eq!(Command::InsertNewLine.execute(&mut context), rendered());
    assert_eq!(lines_in(&context), vec!["abc", "", "de"]);
    assert_eq!(context.cursor.pos(), Position { row: 1, col: 0 });
}

#[test]
fn insert_newline_at_the_start_of_a_line_pushes_it_down() {
    let mut context = context_of(&["abc", "de"], 10);
    context.cursor.move_to(1, 0);
    assert_eq!(Command::InsertNewLine.execute(&mut context), rendered());
    assert_eq!(lines_in(&context), vec!["abc", "", "de"]);
    assert_eq!(context.cursor.pos(), Position { row: 2, col: 0 });
}

#[test]
fn delete_backward_removes_the_character_before_the_cursor() {
    let mut context = context_of(&["abc"], 10);
    context.cursor.move_to(0, 2);
    assert_eq!(Command::RemoveChar.execute(&mut context), rendered());
    assert_eq!(lines_in(&context), vec!["ac"]);
    assert_eq!(context.cursor.pos(), Position { row: 0, col: 1 });
}

#[test]
fn delete_backward_at_line_start_merges_with_the_line_above() {
    let mut context = context_of(&["abc", "def", "g"], 10);
    context.cursor.move_to(1, 0);
    assert_eq!(Command::RemoveChar.execute(&mut context), rendered());
    assert_eq!(lines_in(&context), vec!["abcdef", "g"]);
    assert_eq!(context.cursor.pos(), Position { row: 0, col: 3 });
}

#[test]
fn delete_backward_at_the_start_of_the_text_changes_nothing() {
    let mut context = context_of(&["abc", "def"], 10);
    assert_eq!(Command::RemoveChar.execute(&mut context), rendered());
    assert_eq!(lines_in(&context), vec!["abc", "def"]);
    assert_eq!(context.cursor.pos(), Position { row: 0, col: 0 });
}

#[test]
fn split_then_delete_backward_restores_the_line() {
    let mut context = context_of(&["one", "abcdef", "two"], 10);
    context.cursor.move_to(1, 4);
    assert_eq!(Command::InsertNewLine.execute(&mut context), rendered());
    assert_eq!(lines_in(&context), vec!["one", "abcd", "ef", "two"]);
    assert_eq!(Command::RemoveChar.execute(&mut context), rendered());
    assert_eq!(lines_in(&context), vec!["one", "abcdef", "two"]);
    assert_eq!(context.cursor.pos(), Position { row: 1, col: 4 });
}

#[test]
fn move_cursor_stops_at_the_ends_of_the_line() {
    let mut context = context_of(&["abc", "de"], 10);
    assert_eq!(
        (Command::MoveCursor { dx: 2, dy: 0 }).execute(&mut context),
        rendered()
    );
    assert_eq!(context.cursor.pos(), Position { row: 0, col: 2 });
    assert_eq!(
        (Command::MoveCursor { dx: 5, dy: 0 }).execute(&mut context),
        rendered()
    );
    assert_eq!(context.cursor.pos(), Position { row: 0, col: 3 });
    assert_eq!(
        (Command::MoveCursor { dx: i32::MIN, dy: 0 }).execute(&mut context),
        rendered()
    );
    assert_eq!(context.cursor.pos(), Position { row: 0, col: 0 });
    assert_eq!(
        (Command::MoveCursor { dx: i32::MAX, dy: 0 }).execute(&mut context),
        rendered()
    );
    assert_eq!(context.cursor.pos(), Position { row: 0, col: 3 });
}

#[test]
fn move_cursor_stops_at_the_ends_of_the_text() {
    let mut context = context_of(&["abc", "de", "f"], 10);
    assert_eq!(
        (Command::MoveCursor { dx: 0, dy: 1 }).execute(&mut context),
        rendered()
    );
    assert_eq!(context.cursor.pos(), Position { row: 1, col: 0 });
    assert_eq!(
        (Command::MoveCursor { dx: 0, dy: 7 }).execute(&mut context),
        rendered()
    );
    assert_eq!(context.cursor.pos(), Position { row: 2, col: 0 });
    assert_eq!(
        (Command::MoveCursor { dx: 0, dy: i32::MIN }).execute(&mut context),
        rendered()
    );
    assert_eq!(context.cursor.pos(), Position { row: 0, col: 0 });
    assert_eq!(
        (Command::MoveCursor { dx: 0, dy: i32::MAX }).execute(&mut context),
        rendered()
    );
    assert_eq!(context.cursor.pos(), Position { row: 2, col: 0 });
}

#[test]
fn vertical_move_pulls_the_column_into_the_new_line() {
    let mut context = context_of(&["abcdef", "de", ""], 10);
    context.cursor.move_to(0, 5);
    assert_eq!(
        (Command::MoveCursor { dx: 0, dy: 1 }).execute(&mut context),
        rendered()
    );
    assert_eq!(context.cursor.pos(), Position { row: 1, col: 2 });
    assert_eq!(
        (Command::MoveCursor { dx: 0, dy: 1 }).execute(&mut context),
        rendered()
    );
    assert_eq!(context.cursor.pos(), Position { row: 2, col: 0 });
    assert_eq!(
        (Command::MoveCursor { dx: 3, dy: -2 }).execute(&mut context),
        rendered()
    );
    assert_eq!(context.cursor.pos(), Position { row: 0, col: 0 });
}

#[test]
fn cursor_stays_in_the_text_through_any_moves() {
    let mut context = context_of(&["abc", "", "defgh", "i"], 3);
    let deltas = [-7, -1, 0, 1, 2, 9];
    for round in 0..3 {
        for dx in deltas {
            for dy in deltas {
                let command = Command::MoveCursor { dx: dx + round, dy };
                assert_eq!(command.execute(&mut context), rendered());
                assert_eq!(context.check(), Ok(()));
                let row = context.cursor.row();
                assert!(row < context.buffer.len());
                assert!(context.cursor.col() <= context.buffer.len_of(row).unwrap());
            }
        }
    }
}

#[test]
fn move_cursor_lets_the_viewport_follow() {
    let mut context = numbered(200, 40);
    assert_eq!(
        (Command::MoveCursor { dx: 0, dy: 100 }).execute(&mut context),
        rendered()
    );
    assert_eq!(context.cursor.row(), 100);
    assert_eq!(context.viewport.offset, 75);
    assert_eq!(
        (Command::MoveCursor { dx: 0, dy: -20 }).execute(&mut context),
        rendered()
    );
    assert_eq!(context.cursor.row(), 80);
    assert_eq!(context.viewport.offset, 65);
    assert_eq!(
        (Command::MoveCursor { dx: 0, dy: 5 }).execute(&mut context),
        rendered()
    );
    assert_eq!(context.cursor.row(), 85);
    assert_eq!(context.viewport.offset, 65);
}

#[test]
fn buffer_end_puts_the_viewport_at_the_bottom() {
    let mut context = numbered(10, 5);
    assert_eq!(Command::MoveCursorEOF.execute(&mut context), rendered());
    assert_eq!(context.cursor.pos(), Position { row: 9, col: 6 });
    assert_eq!(context.viewport.offset, 5);
}

#[test]
fn buffer_end_of_a_short_text_keeps_the_viewport_at_the_top() {
    let mut context = numbered(3, 5);
    assert_eq!(Command::MoveCursorEOF.execute(&mut context), rendered());
    assert_eq!(context.cursor.pos(), Position { row: 2, col: 6 });
    assert_eq!(context.viewport.offset, 0);
}

#[test]
fn buffer_start_puts_the_viewport_at_the_top() {
    let mut context = numbered(100, 5);
    context.cursor.move_to(50, 2);
    context.viewport.offset = 48;
    assert_eq!(Command::MoveCursorSOF.execute(&mut context), rendered());
    assert_eq!(context.cursor.pos(), Position { row: 0, col: 6 });
    assert_eq!(context.viewport.offset, 0);
}

#[test]
fn insert_char_advances_the_cursor() {
    let mut context = context_of(&["ac"], 10);
    context.cursor.move_to(0, 1);
    assert_eq!(Command::InsertChar('b').execute(&mut context), rendered());
    assert_eq!(lines_in(&context), vec!["abc"]);
    assert_eq!(context.cursor.pos(), Position { row: 0, col: 2 });
    assert_eq!(Command::InsertChar('→').execute(&mut context), rendered());
    assert_eq!(lines_in(&context), vec!["ab→c"]);
    assert_eq!(context.cursor.pos(), Position { row: 0, col: 3 });
}

#[test]
fn insert_tab_inserts_four_blanks() {
    assert_eq!(TAB_WIDTH, 4);
    let mut context = context_of(&["ab"], 10);
    context.cursor.move_to(0, 1);
    assert_eq!(Command::InsertTab.execute(&mut context), rendered());
    assert_eq!(lines_in(&context), vec!["a    b"]);
    assert_eq!(context.cursor.pos(), Position { row: 0, col: 5 });
}

#[test]
fn open_line_below_and_above() {
    let mut context = context_of(&["a", "b"], 10);
    context.cursor.move_to(1, 1);
    assert_eq!(Command::InsertEmptyLineBelow.execute(&mut context), rendered());
    assert_eq!(lines_in(&context), vec!["a", "b", ""]);
    assert_eq!(context.cursor.pos(), Position { row: 2, col: 0 });
    assert_eq!(context.app_state.mode(), Mode::Edit);
    assert_eq!(context.cursor.style(), CursorStyle::Bar);

    let mut context = context_of(&["a", "b"], 10);
    context.cursor.move_to(1, 1);
    assert_eq!(Command::InsertEmptyLineAbove.execute(&mut context), rendered());
    assert_eq!(lines_in(&context), vec!["a", "", "b"]);
    assert_eq!(context.cursor.pos(), Position { row: 1, col: 0 });
    assert_eq!(context.app_state.mode(), Mode::Edit);
    assert_eq!(context.cursor.style(), CursorStyle::Bar);
}

#[test]
fn line_end_switches_to_typing() {
    let mut context = context_of(&["abc"], 10);
    assert_eq!(Command::MoveCursorToLineEnd.execute(&mut context), rendered());
    assert_eq!(context.cursor.pos(), Position { row: 0, col: 3 });
    assert_eq!(context.app_state.mode(), Mode::Edit);
    assert_eq!(context.cursor.style(), CursorStyle::Bar);
}

#[test]
fn pointer_press_subtracts_the_gutter() {
    let mut context = numbered(12, 5);
    context.viewport.offset = 4;
    assert_eq!(
        (Command::MoveCursorToMouse { row: 2, col: 5 }).execute(&mut context),
        rendered()
    );
    assert_eq!(context.cursor.pos(), Position { row: 6, col: 2 });
    assert_eq!(
        (Command::MoveCursorToMouse { row: 0, col: 3 }).execute(&mut context),
        rendered()
    );
    assert_eq!(context.cursor.pos(), Position { row: 4, col: 0 });
    assert_eq!(
        (Command::MoveCursorToMouse { row: 0, col: 0 }).execute(&mut context),
        rendered()
    );
    assert_eq!(context.cursor.pos(), Position { row: 4, col: 0 });
    assert_eq!(
        (Command::MoveCursorToMouse { row: 1, col: 90 }).execute(&mut context),
        rendered()
    );
    assert_eq!(context.cursor.pos(), Position { row: 5, col: 6 });
}

#[test]
fn gutter_grows_with_the_number_of_lines() {
    let mut context = numbered(10, 5);
    assert_eq!(
        (Command::MoveCursorToMouse { row: 0, col: 4 }).execute(&mut context),
        rendered()
    );
    assert_eq!(context.cursor.col(), 2);

    let mut context = numbered(11, 5);
    assert_eq!(
        (Command::MoveCursorToMouse { row: 0, col: 4 }).execute(&mut context),
        rendered()
    );
    assert_eq!(context.cursor.col(), 1);

    let mut context = numbered(1, 5);
    assert_eq!(
        (Command::MoveCursorToMouse { row: 0, col: 4 }).execute(&mut context),
        rendered()
    );
    assert_eq!(context.cursor.col(), 2);

    let mut context = numbered(101, 5);
    assert_eq!(
        (Command::MoveCursorToMouse { row: 0, col: 9 }).execute(&mut context),
        rendered()
    );
    assert_eq!(context.cursor.col(), 5);
}

#[test]
fn pointer_press_below_the_text_is_refused() {
    let mut context = numbered(3, 5);
    context.cursor.move_to(1, 2);
    assert_eq!(
        (Command::MoveCursorToMouse { row: 3, col: 5 }).execute(&mut context),
        Err(BufferError::RowOutOfRange)
    );
    assert_eq!(
        (Command::MoveCursorToMouse { row: usize::MAX, col: 5 }).execute(&mut context),
        Err(BufferError::RowOutOfRange)
    );
    assert_eq!(context.cursor.pos(), Position { row: 1, col: 2 });
}

#[test]
fn scrolling_moves_viewport_and_cursor() {
    let mut context = context_of(&["aaaa", "bb", "cccc", "d", "e", "f"], 3);
    context.cursor.move_to(0, 4);
    assert_eq!(Command::ScrollDown.execute(&mut context), rendered());
    assert_eq!(context.viewport.offset, 1);
    assert_eq!(context.cursor.pos(), Position { row: 1, col: 2 });
    assert_eq!(Command::ScrollDown.execute(&mut context), rendered());
    assert_eq!(Command::ScrollDown.execute(&mut context), rendered());
    assert_eq!(context.viewport.offset, 3);
    assert_eq!(context.cursor.pos(), Position { row: 3, col: 1 });
    assert_eq!(Command::ScrollDown.execute(&mut context), rendered());
    assert_eq!(context.viewport.offset, 3);
    assert_eq!(context.cursor.pos(), Position { row: 3, col: 1 });
    assert_eq!(Command::ScrollUp.execute(&mut context), rendered());
    assert_eq!(context.viewport.offset, 2);
    assert_eq!(context.cursor.pos(), Position { row: 2, col: 1 });
    assert_eq!(Command::ScrollUp.execute(&mut context), rendered());
    assert_eq!(Command::ScrollUp.execute(&mut context), rendered());
    assert_eq!(context.viewport.offset, 0);
    assert_eq!(context.cursor.pos(), Position { row: 0, col: 1 });
    assert_eq!(Command::ScrollUp.execute(&mut context), rendered());
    assert_eq!(context.viewport.offset, 0);
    assert_eq!(context.cursor.pos(), Position { row: 0, col: 1 });
}

#[test]
fn scrolling_keeps_the_cursor_in_the_text() {
    let mut context = context_of(&["a", "b", "c", "d", "e"], 2);
    context.cursor.move_to(4, 1);
    assert_eq!(Command::ScrollDown.execute(&mut context), rendered());
    assert_eq!(context.viewport.offset, 1);
    assert_eq!(context.cursor.pos(), Position { row: 4, col: 1 });

    context.cursor.move_to(0, 0);
    assert_eq!(Command::ScrollUp.execute(&mut context), rendered());
    assert_eq!(context.viewport.offset, 0);
    assert_eq!(context.cursor.pos(), Position { row: 0, col: 0 });
}

#[test]
fn change_mode_sets_the_cursor_style() {
    let mut context = context_of(&["a"], 3);
    assert_eq!(Command::ChangeMode(Mode::Edit).execute(&mut context), rendered());
    assert_eq!(context.app_state.mode(), Mode::Edit);
    assert_eq!(context.cursor.style(), CursorStyle::Bar);
    assert_eq!(Command::ChangeMode(Mode::Cmd).execute(&mut context), rendered());
    assert_eq!(context.app_state.mode(), Mode::Cmd);
    assert_eq!(context.cursor.style(), CursorStyle::Block);
    assert_eq!(Command::ChangeMode(Mode::Edit).execute(&mut context), rendered());
    assert_eq!(Command::ChangeMode(Mode::Normal).execute(&mut context), rendered());
    assert_eq!(context.app_state.mode(), Mode::Normal);
    assert_eq!(context.cursor.style(), CursorStyle::Block);
}

#[test]
fn terminate_raises_the_flag_without_a_render() {
    let mut context = context_of(&["a"], 3);
    context.app_state.set_should_render(false);
    assert_eq!(Command::TerminateApp.execute(&mut context), quiet());
    assert!(context.app_state.should_terminate());
    assert!(!context.app_state.should_render());
}

#[test]
fn do_nothing_and_undo_change_nothing() {
    let mut context = context_of(&["abc", "de"], 3);
    context.cursor.move_to(1, 1);
    context.app_state.set_should_render(false);
    assert_eq!(Command::DoNothing.execute(&mut context), quiet());
    assert_eq!(Command::Undo.execute(&mut context), quiet());
    assert_eq!(lines_in(&context), vec!["abc", "de"]);
    assert_eq!(context.cursor.pos(), Position { row: 1, col: 1 });
    assert!(!context.app_state.should_render());
    assert!(!context.app_state.should_terminate());
}

#[test]
fn save_asks_for_the_text_to_be_written() {
    let mut context = context_of(&["abc", "de"], 3);
    context.app_state.set_mode(Mode::Cmd);
    context.app_state.set_should_render(false);
    assert_eq!(
        Command::Save.execute(&mut context),
        Ok(Outcome { render: true, effect: Effect::Save })
    );
    assert_eq!(context.app_state.mode(), Mode::Normal);
    assert!(context.app_state.should_render());
    assert_eq!(context.buffer.to_text(), "abc\nde\n");

    context.app_state.set_mode(Mode::Cmd);
    assert_eq!(
        Command::SaveAndRestart.execute(&mut context),
        Ok(Outcome { render: true, effect: Effect::SaveAndRestart })
    );
    assert_eq!(context.app_state.mode(), Mode::Normal);
}

#[test]
fn open_file_asks_for_the_file_and_then_takes_its_lines() {
    let mut context = context_of(&["abc", "de"], 3);
    context.cursor.move_to(1, 2);
    context.viewport.offset = 1;
    context.app_state.set_mode(Mode::Cmd);
    context.app_state.set_should_render(false);
    assert_eq!(
        Command::OpenFile(String::from("other.txt")).execute(&mut context),
        Ok(Outcome { render: false, effect: Effect::OpenFile(String::from("other.txt")) })
    );
    assert_eq!(lines_in(&context), vec!["abc", "de"]);
    assert_eq!(context.file_name, "notes.txt");

    context.open_file("other.txt", vec![String::from("x"), String::from("yz")]);
    assert_eq!(lines_in(&context), vec!["x", "yz"]);
    assert_eq!(context.file_name, "other.txt");
    assert_eq!(context.cursor.pos(), Position { row: 0, col: 0 });
    assert_eq!(context.viewport.offset, 0);
    assert_eq!(context.app_state.mode(), Mode::Normal);
    assert!(context.app_state.should_render());

    context.open_file("empty.txt", Vec::new());
    assert_eq!(lines_in(&context), vec![""]);
    assert_eq!(context.check(), Ok(()));
}

#[test]
fn cursor_outside_the_text_is_refused() {
    let commands = [
        Command::MoveCursor { dx: 1, dy: 1 },
        Command::InsertChar('x'),
        Command::InsertTab,
        Command::RemoveChar,
        Command::InsertNewLine,
        Command::InsertEmptyLineBelow,
        Command::InsertEmptyLineAbove,
        Command::MoveCursorToLineEnd,
        Command::ScrollUp,
        Command::ScrollDown,
    ];
    for command in commands {
        let mut context = context_of(&["abc", "de"], 1);
        context.cursor.move_to(2, 0);
        assert_eq!(context.check(), Err(BufferError::RowOutOfRange));
        assert_eq!(command.execute(&mut context), Err(BufferError::RowOutOfRange));
        assert_eq!(lines_in(&context), vec!["abc", "de"]);
        assert_eq!(context.cursor.pos(), Position { row: 2, col: 0 });
        assert_eq!(context.viewport.offset, 0);

        context.cursor.move_to(1, 3);
        assert_eq!(context.check(), Err(BufferError::ColOutOfRange));
        assert_eq!(command.execute(&mut context), Err(BufferError::ColOutOfRange));
        assert_eq!(lines_in(&context), vec!["abc", "de"]);
        assert_eq!(context.cursor.pos(), Position { row: 1, col: 3 });
    }
}

#[test]
fn commands_that_do_not_start_from_the_cursor_are_never_refused() {
    let mut context = context_of(&["abc", "de"], 1);
    context.cursor.move_to(7, 7);
    assert_eq!(Command::ChangeMode(Mode::Edit).execute(&mut context), rendered());
    assert_eq!(Command::DoNothing.execute(&mut context), quiet());
    assert_eq!(Command::TerminateApp.execute(&mut context), quiet());
    assert_eq!(Command::MoveCursorEOF.execute(&mut context), rendered());
    assert_eq!(context.cursor.pos(), Position { row: 1, col: 2 });
    assert_eq!(context.check(), Ok(()));
}

#[test]
fn typing_and_deleting_backward_cancel() {
    let mut context = context_of(&["one", "abcdef"], 10);
    context.cursor.move_to(1, 2);
    assert_eq!(Command::InsertChar('x').execute(&mut context), rendered());
    assert_eq!(lines_in(&context), vec!["one", "abxcdef"]);
    assert_eq!(Command::RemoveChar.execute(&mut context), rendered());
    assert_eq!(lines_in(&context), vec!["one", "abcdef"]);
    assert_eq!(context.cursor.pos(), Position { row: 1, col: 2 });
}

#[test]
fn a_tab_is_four_blanks_typed_one_by_one() {
    let mut tabbed = context_of(&["abcdef"], 10);
    tabbed.cursor.move_to(0, 3);
    assert_eq!(Command::InsertTab.execute(&mut tabbed), rendered());

    let mut typed = context_of(&["abcdef"], 10);
    typed.cursor.move_to(0, 3);
    for _ in 0..TAB_WIDTH {
        assert_eq!(Command::InsertChar(' ').execute(&mut typed), rendered());
    }
    assert_eq!(lines_in(&tabbed), lines_in(&typed));
    assert_eq!(tabbed.cursor.pos(), typed.cursor.pos());
    assert_eq!(lines_in(&tabbed), vec!["abc    def"]);
}

#[test]
fn only_some_commands_change_the_mode() {
    let keeping = [
        Command::DoNothing,
        Command::MoveCursor { dx: 1, dy: 1 },
        Command::MoveCursorSOF,
        Command::MoveCursorEOF,
        Command::InsertChar('x'),
        Command::InsertTab,
        Command::RemoveChar,
        Command::InsertNewLine,
        Command::MoveCursorToMouse { row: 0, col: 0 },
        Command::ScrollUp,
        Command::ScrollDown,
        Command::TerminateApp,
        Command::OpenFile(String::from("x")),
        Command::Undo,
    ];
    for mode in [Mode::Normal, Mode::Cmd, Mode::Edit] {
        for command in &keeping {
            let mut context = context_of(&["abc", "de"], 1);
            context.app_state.set_mode(mode);
            command.execute(&mut context).unwrap();
            assert_eq!(context.app_state.mode(), mode);
        }
    }
}
