use hoditor::app::{Context, Viewport};
use hoditor::buffer::Buffer;
use hoditor::cursor::{CursorStyle, Position};
use hoditor::input_handler::Command;
use hoditor::renderer::{digit_count, number_string, Frame, Renderer, Scroll, STATUS_BAR_HEIGHT};
use hoditor::state::Mode;

fn numbered(count: usize, height: usize) -> Context {
    let lines: Vec<String> = (0..count).map(|i| format!("line {}", i)).collect();
    Context::new(
        Buffer::from_lines(lines),
        Viewport { height, offset: 0 },
        String::from("notes.txt"),
    )
}

#[test]
fn digits_are_counted() {
    assert_eq!(STATUS_BAR_HEIGHT, 2);
    assert_eq!(digit_count(0), 1);
    assert_eq!(digit_count(9), 1);
    assert_eq!(digit_count(10), 2);
    assert_eq!(digit_count(99), 2);
    assert_eq!(digit_count(100), 3);
    assert_eq!(digit_count(usize::MAX), usize::MAX.to_string().len());
}

#[test]
fn numbers_are_written_in_decimal() {
    for n in [0usize, 7, 10, 42, 99, 100, 1234567890, usize::MAX] {
        assert_eq!(number_string(n), n.to_string());
    }
}

#[test]
fn first_frame_draws_every_row() {
    let context = numbered(12, 3);
    let mut renderer = Renderer::new(80, 5, Some("txt"));
    let frame = renderer.init(&context);
    assert_eq!(
        frame,
        Frame {
            scroll: Scroll::Stay,
            first_row: 0,
            rows: vec![
                String::from(" 0 line 0"),
                String::from(" 1 line 1"),
                String::from(" 2 line 2"),
            ],
            status_row: 3,
            status: String::from("mode: Normal"),
            cursor: Some(Position { row: 0, col: 3 }),
            style: CursorStyle::Block,
        }
    );
}

#[test]
fn rows_below_the_text_are_empty() {
    let context = numbered(2, 4);
    let mut renderer = Renderer::new(80, 6, None);
    let frame = renderer.init(&context);
    assert_eq!(frame.rows, vec!["0 line 0", "1 line 1", "", ""]);
    assert_eq!(renderer.draw_lines(&context), frame.rows);
}

#[test]
fn a_small_move_of_the_viewport_shifts_the_screen() {
    let mut context = numbered(100, 10);
    let mut renderer = Renderer::new(80, 12, None);
    renderer.init(&context);

    context.viewport.offset = 3;
    context.cursor.move_to(5, 2);
    let frame = renderer.render(&context);
    assert_eq!(frame.scroll, Scroll::Up(3));
    assert_eq!(frame.first_row, 7);
    assert_eq!(frame.rows, vec!["10 line 10", "11 line 11", "12 line 12"]);
    assert_eq!(frame.cursor, Some(Position { row: 2, col: 5 }));

    context.viewport.offset = 1;
    let frame = renderer.render(&context);
    assert_eq!(frame.scroll, Scroll::Down(2));
    assert_eq!(frame.first_row, 0);
    assert_eq!(frame.rows, vec![" 1 line 1", " 2 line 2"]);
    assert_eq!(frame.cursor, Some(Position { row: 4, col: 5 }));

    let frame = renderer.render(&context);
    assert_eq!(frame.scroll, Scroll::Stay);
    assert_eq!(frame.first_row, 0);
    assert_eq!(frame.rows.len(), 10);
    assert_eq!(frame.rows[9], "10 line 10");
}

#[test]
fn a_large_move_of_the_viewport_draws_every_row() {
    let mut context = numbered(100, 10);
    let mut renderer = Renderer::new(80, 12, None);
    renderer.init(&context);

    context.viewport.offset = 10;
    let frame = renderer.render(&context);
    assert_eq!(frame.scroll, Scroll::Stay);
    assert_eq!(frame.first_row, 0);
    assert_eq!(frame.rows.len(), 10);
    assert_eq!(frame.rows[0], "10 line 10");
    assert_eq!(frame.cursor, None);

    context.viewport.offset = 0;
    let frame = renderer.render(&context);
    assert_eq!(frame.scroll, Scroll::Stay);
    assert_eq!(frame.rows[0], " 0 line 0");
    assert_eq!(frame.cursor, Some(Position { row: 0, col: 3 }));
}

#[test]
fn status_bar_names_the_mode() {
    let mut context = numbered(1, 1);
    let mut renderer = Renderer::new(80, 1, None);
    assert_eq!(renderer.init(&context).status, "mode: Normal");
    assert_eq!(renderer.render(&context).status_row, 0);
    Command::ChangeMode(Mode::Edit).execute(&mut context).unwrap();
    let frame = renderer.render(&context);
    assert_eq!(frame.status, "mode: Edit");
    assert_eq!(frame.style, CursorStyle::Bar);
    Command::ChangeMode(Mode::Cmd).execute(&mut context).unwrap();
    assert_eq!(renderer.render(&context).status, "mode: Cmd");
}

#[test]
fn renderer_remembers_the_file_extension() {
    assert_eq!(Renderer::new(1, 1, Some("rs")).file_extension(), "rs");
    assert_eq!(Renderer::new(1, 1, None).file_extension(), "txt");
}

#[test]
fn context_is_described_in_one_line() {
    let mut context = numbered(12, 3);
    context.cursor.move_to(10, 4);
    context.viewport.offset = 9;
    assert_eq!(
        context.describe(),
        "Cursor { 10, 4 }, Buffer [ line 10 ], State { mode:Normal }, Viewport { offset:9, height:3}"
    );
    context.cursor.move_to(99, 0);
    context.app_state.set_mode(Mode::Edit);
    assert_eq!(
        context.describe(),
        "Cursor { 99, 0 }, Buffer [  ], State { mode:Edit }, Viewport { offset:9, height:3}"
    );
}
