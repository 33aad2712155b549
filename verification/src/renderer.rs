//! The renderer's plan: what has to be drawn for a context, as plain values.
//!
//! Nothing here touches a terminal. A frame says how far to shift what is on
//! screen, which rows to draw again and with what text, what the status bar
//! reads and where the cursor goes; drawing it is left to the caller.

use crate::app::{row_visible, Context, ContextView};
use crate::cursor::{CursorStyle, Position};
use crate::state::Mode;
use vstd::prelude::*;

verus! {

/// Rows at the bottom of the window that show status, not text.
pub const STATUS_BAR_HEIGHT: usize = 2;

/// The file extension that stands for a file that has none.
pub open spec fn default_extension() -> Seq<char> {
    "txt"@
}

/// The number of decimal digits of `n`; 0 has one.
pub open spec fn digits(n: nat) -> nat
    decreases n,
{
    if n < 10 {
        1
    } else {
        1 + digits(n / 10)
    }
}

/// The width of the margin that shows line numbers beside a text of `total`
/// lines: the digits of the last line's number, and one blank.
pub open spec fn gutter_width(total: nat) -> nat {
    digits((total - 1) as nat) + 1
}

/// The character that writes the digit `d`.
pub open spec fn digit_char(d: nat) -> char {
    "0123456789"@[d as int]
}

/// `n` written in decimal digits.
pub open spec fn number_text(n: nat) -> Seq<char>
    decreases n,
{
    if n < 10 {
        seq![digit_char(n)]
    } else {
        number_text(n / 10).push(digit_char(n % 10))
    }
}

/// `n` blanks.
pub open spec fn blanks(n: nat) -> Seq<char> {
    Seq::new(n, |i: int| ' ')
}

/// `text` with blanks before it up to `width` characters; a text that is
/// wider stays as it is.
pub open spec fn right_aligned(text: Seq<char>, width: nat) -> Seq<char> {
    if text.len() >= width {
        text
    } else {
        blanks((width - text.len()) as nat) + text
    }
}

/// What a screen row reads that shows line `line` of the text: the line's
/// number in a margin of `width` digits, a blank, and the line. A row below
/// the end of the text is empty.
pub open spec fn row_text(lines: Seq<Seq<char>>, width: nat, line: int) -> Seq<char> {
    if 0 <= line < lines.len() {
        right_aligned(number_text(line as nat), width).push(' ') + lines[line]
    } else {
        Seq::empty()
    }
}

/// The name of a mode as the status bar shows it.
pub open spec fn mode_name(mode: Mode) -> Seq<char> {
    match mode {
        Mode::Normal => "Normal"@,
        Mode::Cmd => "Cmd"@,
        Mode::Edit => "Edit"@,
    }
}

/// What the status bar reads.
pub open spec fn status_text(mode: Mode) -> Seq<char> {
    "mode: "@ + mode_name(mode)
}

/// A context in one line of text, for messages: where the cursor stands,
/// what its line reads, the mode, and the viewport. A cursor outside the text
/// has an empty line.
pub open spec fn described(context: ContextView) -> Seq<char> {
    let line = if 0 <= context.row < context.lines.len() {
        context.lines[context.row]
    } else {
        Seq::empty()
    };
    "Cursor { "@ + number_text(context.row as nat) + ", "@ + number_text(context.col as nat)
        + " }, Buffer [ "@ + line + " ], State { mode:"@ + mode_name(context.mode)
        + " }, Viewport { offset:"@ + number_text(context.offset as nat) + ", height:"@
        + number_text(context.height as nat) + "}"@
}

/// How what is on screen is shifted before rows are drawn again.
#[derive(Debug, Clone, Copy, PartialEq, Eq, Structural)]
pub enum Scroll {
    /// Nothing is shifted.
    Stay,
    /// The content moves up by so many rows, and the bottom rows are free.
    Up(usize),
    /// The content moves down by so many rows, and the top rows are free.
    Down(usize),
}

/// The shift that brings a viewport of `height` rows from offset `last` to
/// `offset`, and the screen rows, from the first to before the second, that
/// have to be drawn again after it. A viewport that moved by less than its
/// height is shifted, and only the rows that the shift freed are drawn;
/// otherwise every row is drawn.
pub open spec fn redrawn(last: int, offset: int, height: int) -> (Scroll, int, int) {
    let delta = offset - last;
    if 0 < delta < height {
        (Scroll::Up(delta as usize), height - delta, height)
    } else if 0 < -delta < height {
        (Scroll::Down((-delta) as usize), 0, -delta)
    } else {
        (Scroll::Stay, 0, height)
    }
}

/// The size of the terminal window, in cells.
#[derive(Debug, Clone, Copy, PartialEq, Eq, Structural)]
pub struct WindowSize {
    pub width: usize,
    pub height: usize,
}

/// Everything that has to be drawn.
#[derive(Debug, PartialEq, Eq)]
pub struct Frame {
    /// How to shift what is on screen first.
    pub scroll: Scroll,
    /// The first screen row to draw again.
    pub first_row: usize,
    /// What the rows to draw again read, from `first_row` on.
    pub rows: Vec<String>,
    /// The screen row of the status bar.
    pub status_row: usize,
    /// What the status bar reads.
    pub status: String,
    /// The screen cell of the cursor, if its row is in the viewport.
    pub cursor: Option<Position>,
    /// The shape of the cursor.
    pub style: CursorStyle,
}

/// A frame as plain mathematical values.
#[verifier::ext_equal]
pub struct FrameView {
    pub scroll: Scroll,
    pub first_row: int,
    pub rows: Seq<Seq<char>>,
    pub status_row: int,
    pub status: Seq<char>,
    pub cursor: Option<Position>,
    pub style: CursorStyle,
}

impl View for Frame {
    type V = FrameView;

    open spec fn view(&self) -> FrameView {
        FrameView {
            scroll: self.scroll,
            first_row: self.first_row as int,
            rows: Seq::new(self.rows@.len(), |i: int| self.rows@[i]@),
            status_row: self.status_row as int,
            status: self.status@,
            cursor: self.cursor,
            style: self.style,
        }
    }
}

/// What a renderer holds, as plain mathematical values.
pub struct RendererView {
    pub win_size: WindowSize,
    pub line_num_width: nat,
    pub file_extension: Seq<char>,
    pub last_viewport_offset: int,
}

impl RendererView {
    /// The screen row of the status bar: the first of the last rows of the
    /// window, or the top row of a window that is too low for a status bar.
    pub open spec fn status_row(self) -> int {
        if self.win_size.height >= STATUS_BAR_HEIGHT {
            self.win_size.height - STATUS_BAR_HEIGHT
        } else {
            0
        }
    }

    /// The screen cell of the cursor: its row counted from the viewport's
    /// offset, its column behind the gutter. There is none where the
    /// cursor's row is not in the viewport, or the column is no machine
    /// number.
    pub open spec fn cursor_cell(self, context: ContextView) -> Option<Position> {
        if row_visible(context.offset, context.height, context.row) && self.line_num_width + 1
            + context.col <= usize::MAX {
            Some(
                Position {
                    row: (context.row - context.offset) as usize,
                    col: (self.line_num_width + 1 + context.col) as usize,
                },
            )
        } else {
            None
        }
    }

    /// The frame that shows `context`.
    pub open spec fn frame(self, context: ContextView) -> FrameView {
        let (scroll, first, end) = redrawn(
            self.last_viewport_offset,
            context.offset,
            context.height,
        );
        FrameView {
            scroll,
            first_row: first,
            rows: Seq::new(
                (end - first) as nat,
                |i: int| row_text(context.lines, self.line_num_width, context.offset + first + i),
            ),
            status_row: self.status_row(),
            status: status_text(context.mode),
            cursor: self.cursor_cell(context),
            style: context.style,
        }
    }
}

/// The number of decimal digits of `n`.
pub fn digit_count(n: usize) -> (d: usize)
    ensures
        d == digits(n as nat),
        1 <= d,
        d <= n || n == 0,
{
    let mut d: usize = 1;
    let mut rest: usize = n;
    while rest >= 10
        invariant
            1 <= d,
            d + digits(rest as nat) == 1 + digits(n as nat),
            d + rest <= n + 1,
            n >= 1 ==> rest >= 1,
        decreases rest,
    {
        rest = rest / 10;
        d = d + 1;
    }
    d
}

/// `n` written in decimal digits.
pub fn number_string(n: usize) -> (text: String)
    ensures
        text@ == number_text(n as nat),
    decreases n,
{
    proof {
        reveal_strlit("0123456789");
    }
    if n < 10 {
        let mut text = String::new();
        text.push("0123456789".get_char(n));
        text
    } else {
        let mut text = number_string(n / 10);
        text.push("0123456789".get_char(n % 10));
        text
    }
}

/// What a screen row reads that shows line `line` of the buffer.
fn draw_row(context: &Context, width: usize, line: usize) -> (text: String)
    ensures
        text@ == row_text(context@.lines, width as nat, line as int),
{
    let mut text = String::new();
    match context.buffer.get(line) {
        Ok(content) => {
            let number = number_string(line);
            let len: usize = number.as_str().unicode_len();
            let mut i: usize = len;
            while i < width
                invariant
                    len <= i <= width || width < len == i,
                    text@ == blanks((i - len) as nat),
                decreases width - i,
            {
                text.push(' ');
                assert(blanks((i - len) as nat).push(' ') =~= blanks((i + 1 - len) as nat));
                i = i + 1;
            }
            assert(blanks(0) + number@ =~= number@);
            text.append(number.as_str());
            text.push(' ');
            text.append(content.as_str());
            text
        },
        Err(_) => text,
    }
}

/// The name of the mode as the status bar shows it.
fn mode_text(mode: Mode) -> (name: &'static str)
    ensures
        name@ == mode_name(mode),
{
    match mode {
        Mode::Normal => "Normal",
        Mode::Cmd => "Cmd",
        Mode::Edit => "Edit",
    }
}

impl Context {
    /// The context in one line of text, for messages.
    pub fn describe(&self) -> (text: String)
        ensures
            text@ == described(self@),
    {
        let mut text = "Cursor { ".to_owned();
        text.append(number_string(self.cursor.row()).as_str());
        text.append(", ");
        text.append(number_string(self.cursor.col()).as_str());
        text.append(" }, Buffer [ ");
        match self.buffer.get(self.cursor.row()) {
            Ok(line) => text.append(line.as_str()),
            Err(_) => {
                assert(text@ + Seq::<char>::empty() =~= text@);
            },
        }
        text.append(" ], State { mode:");
        text.append(mode_text(self.app_state.mode()));
        text.append(" }, Viewport { offset:");
        text.append(number_string(self.viewport.offset).as_str());
        text.append(", height:");
        text.append(number_string(self.viewport.height).as_str());
        text.append("}");
        text
    }
}

/// Holds what drawing needs to remember from one frame to the next.
pub struct Renderer {
    win_size: WindowSize,
    line_num_width: usize,
    file_extension: String,
    last_viewport_offset: usize,
}

impl View for Renderer {
    type V = RendererView;

    closed spec fn view(&self) -> RendererView {
        RendererView {
            win_size: self.win_size,
            line_num_width: self.line_num_width as nat,
            file_extension: self.file_extension@,
            last_viewport_offset: self.last_viewport_offset as int,
        }
    }
}

impl Renderer {
    /// A renderer for a window of the given size, showing a file with the
    /// given extension, or with the default one where the file has none.
    pub fn new(width: usize, height: usize, file_extension: Option<&str>) -> (renderer: Self)
        ensures
            renderer@ == (RendererView {
                win_size: WindowSize { width, height },
                line_num_width: 0,
                file_extension: match file_extension {
                    Some(extension) => extension@,
                    None => default_extension(),
                },
                last_viewport_offset: 0,
            }),
    {
        let file_extension = match file_extension {
            Some(extension) => extension.to_owned(),
            None => "txt".to_owned(),
        };
        Self {
            win_size: WindowSize { width, height },
            line_num_width: 0,
            file_extension,
            last_viewport_offset: 0,
        }
    }

    /// The extension of the file that is shown.
    pub fn file_extension(&self) -> (extension: &String)
        ensures
            extension@ == self@.file_extension,
    {
        &self.file_extension
    }

    /// Sets the width of the line numbers by the length of the text, and
    /// plans the first frame.
    pub fn init(&mut self, context: &Context) -> (frame: Frame)
        ensures
            final(self)@ == (RendererView {
                line_num_width: digits((context@.lines.len() - 1) as nat),
                last_viewport_offset: context@.offset,
                ..old(self)@
            }),
            frame@ == (RendererView {
                line_num_width: digits((context@.lines.len() - 1) as nat),
                ..old(self)@
            }).frame(context@),
    {
        self.line_num_width = digit_count(context.buffer.len() - 1);
        self.render(context)
    }

    /// Plans the frame that shows `context`, and remembers where the
    /// viewport stood in it.
    pub fn render(&mut self, context: &Context) -> (frame: Frame)
        ensures
            final(self)@ == (RendererView {
                last_viewport_offset: context@.offset,
                ..old(self)@
            }),
            frame@ == old(self)@.frame(context@),
    {
        let offset: usize = context.viewport.offset;
        let height: usize = context.viewport.height;
        let last: usize = self.last_viewport_offset;
        let mut scroll = Scroll::Stay;
        let mut first: usize = 0;
        let mut end: usize = height;
        if offset > last && offset - last < height {
            scroll = Scroll::Up(offset - last);
            first = height - (offset - last);
        } else if last > offset && last - offset < height {
            scroll = Scroll::Down(last - offset);
            end = last - offset;
        }
        let rows = self.draw_lines_range(context, first, end);
        self.last_viewport_offset = offset;
        let frame = Frame {
            scroll,
            first_row: first,
            rows,
            status_row: if self.win_size.height >= STATUS_BAR_HEIGHT {
                self.win_size.height - STATUS_BAR_HEIGHT
            } else {
                0
            },
            status: Self::draw_status_bar(context),
            cursor: self.draw_cursor(context),
            style: context.cursor.style(),
        };
        assert(frame@.rows =~= old(self)@.frame(context@).rows);
        frame
    }

    /// What every row of the viewport reads.
    pub fn draw_lines(&self, context: &Context) -> (rows: Vec<String>)
        ensures
            rows@.len() == context@.height,
            forall|i: int|
                0 <= i < rows@.len() ==> (#[trigger] rows@[i])@ == row_text(
                    context@.lines,
                    self@.line_num_width,
                    context@.offset + i,
                ),
    {
        self.draw_lines_range(context, 0, context.viewport.height)
    }

    /// What the screen rows from `screen_start` to before `screen_end` read.
    fn draw_lines_range(&self, context: &Context, screen_start: usize, screen_end: usize) -> (rows:
        Vec<String>)
        requires
            screen_start <= screen_end,
        ensures
            rows@.len() == screen_end - screen_start,
            forall|i: int|
                0 <= i < rows@.len() ==> (#[trigger] rows@[i])@ == row_text(
                    context@.lines,
                    self@.line_num_width,
                    context@.offset + screen_start + i,
                ),
    {
        let total: usize = context.buffer.len();
        let offset: usize = context.viewport.offset;
        let mut rows: Vec<String> = Vec::new();
        let mut screen_row: usize = screen_start;
        while screen_row < screen_end
            invariant
                screen_start <= screen_row <= screen_end,
                total == context@.lines.len(),
                offset == context@.offset,
                rows@.len() == screen_row - screen_start,
                forall|i: int|
                    0 <= i < rows@.len() ==> (#[trigger] rows@[i])@ == row_text(
                        context@.lines,
                        self@.line_num_width,
                        context@.offset + screen_start + i,
                    ),
            decreases screen_end - screen_row,
        {
            let row = if screen_row < total && offset < total - screen_row {
                draw_row(context, self.line_num_width, offset + screen_row)
            } else {
                String::new()
            };
            rows.push(row);
            screen_row = screen_row + 1;
        }
        rows
    }

    /// What the status bar reads.
    fn draw_status_bar(context: &Context) -> (status: String)
        ensures
            status@ == status_text(context@.mode),
    {
        let mut status = "mode: ".to_owned();
        status.append(mode_text(context.app_state.mode()));
        status
    }

    /// The screen cell of the cursor.
    fn draw_cursor(&self, context: &Context) -> (cell: Option<Position>)
        ensures
            cell == self@.cursor_cell(context@),
    {
        let row: usize = context.cursor.row();
        let col: usize = context.cursor.col();
        let offset: usize = context.viewport.offset;
        if row < offset || row - offset >= context.viewport.height {
            return None;
        }
        if self.line_num_width == usize::MAX || col > usize::MAX - self.line_num_width - 1 {
            return None;
        }
        Some(Position { row: row - offset, col: self.line_num_width + 1 + col })
    }
}

} // verus!
