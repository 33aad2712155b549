//! The viewport, the editing context and the application that owns them.

use crate::buffer::{lines_in, lines_of, normalized, split_lines, Buffer, BufferError};
use crate::cursor::{Cursor, CursorStyle, SCROLL_HEIGHT};
use crate::executor::Outcome;
use crate::input_handler::{cmd_bindings, normal_bindings, EventHandler, HandlerView, InputEvent};
use crate::renderer::{
    default_extension, digits, Frame, Renderer, RendererView, WindowSize, STATUS_BAR_HEIGHT,
};
use crate::state::{Mode, State};
use vstd::prelude::*;

verus! {

/// Fixed measures of the screen layout.
pub struct UI;

impl UI {
    /// Rows at the bottom of the window that show status, not text.
    pub const STATUS_BAR_HEIGHT: usize = STATUS_BAR_HEIGHT;

    /// Rows kept between the cursor and the edge of the viewport while
    /// scrolling, except near the ends of the buffer.
    pub const SCROLL_HEIGHT: usize = SCROLL_HEIGHT;
}

/// The largest offset a viewport of `height` rows may have over `total`
/// lines: the one that shows the last line in its last row.
pub open spec fn max_offset(height: int, total: int) -> int {
    if total > height {
        total - height
    } else {
        0
    }
}

/// An offset that leaves no row of the viewport below the last line, unless
/// the whole text is shorter than the viewport.
pub open spec fn offset_in_range(offset: int, height: int, total: int) -> bool {
    0 <= offset <= max_offset(height, total)
}

/// Line `row` lies in the window of `height` rows that starts at `offset`.
pub open spec fn row_visible(offset: int, height: int, row: int) -> bool {
    offset <= row < offset + height
}

/// The offset after the cursor has come to `row` in a text of `total` lines.
///
/// A cursor closer than the scroll margin to the top pulls the window up, one
/// closer than the margin to the bottom pulls it down, but never past the
/// ends of the text; anywhere else the window stays.
pub open spec fn scrolled(offset: int, height: int, row: int, total: int) -> int {
    let margin = UI::SCROLL_HEIGHT as int;
    if row < offset + margin {
        if row < margin {
            0
        } else {
            row - margin
        }
    } else if row >= offset + height - margin {
        let wanted = if row + margin - height <= total - height {
            row + margin - height
        } else {
            total - height
        };
        if wanted < 0 {
            0
        } else {
            wanted
        }
    } else {
        offset
    }
}

/// Following the cursor keeps the offset in range, as long as the cursor
/// stands in the text.
pub proof fn lemma_scrolled_in_range(offset: int, height: int, row: int, total: int)
    requires
        0 <= height,
        0 <= row < total,
        offset_in_range(offset, height, total),
    ensures
        offset_in_range(scrolled(offset, height, row, total), height, total),
{
}

/// Following the cursor brings its row into the window, wherever the window
/// is taller than the scroll margin or holds the whole text.
pub proof fn lemma_scrolled_shows_row(offset: int, height: int, row: int, total: int)
    requires
        0 <= offset,
        0 <= height,
        0 <= row < total,
        height > UI::SCROLL_HEIGHT || total <= height,
    ensures
        row_visible(scrolled(offset, height, row, total), height, row),
{
}

/// The visible window over the buffer: `height` rows starting at line
/// `offset`.
pub struct Viewport {
    pub height: usize,
    pub offset: usize,
}

impl Viewport {
    /// The viewport of a window of `win_height` rows: all of them but the
    /// status bar, starting at the first line.
    pub fn new(win_height: usize) -> (viewport: Self)
        requires
            win_height >= UI::STATUS_BAR_HEIGHT,
        ensures
            viewport.height == win_height - UI::STATUS_BAR_HEIGHT,
            viewport.offset == 0,
    {
        Self { height: win_height - UI::STATUS_BAR_HEIGHT, offset: 0 }
    }

    /// Follows the cursor to `cursor_row` in a text of `eof` lines.
    ///
    /// An offset that was in range stays in range, and the cursor's row is
    /// visible afterwards wherever the viewport is taller than the scroll
    /// margin or holds the whole text.
    pub fn update(&mut self, cursor_row: usize, eof: usize)
        ensures
            final(self).height == old(self).height,
            final(self).offset == scrolled(
                old(self).offset as int,
                old(self).height as int,
                cursor_row as int,
                eof as int,
            ),
            cursor_row < eof && offset_in_range(
                old(self).offset as int,
                old(self).height as int,
                eof as int,
            ) ==> offset_in_range(final(self).offset as int, final(self).height as int, eof as int),
            cursor_row < eof && (old(self).height > UI::SCROLL_HEIGHT || eof <= old(self).height)
                ==> row_visible(
                final(self).offset as int,
                final(self).height as int,
                cursor_row as int,
            ),
    {
        let margin: usize = UI::SCROLL_HEIGHT;
        if cursor_row < margin {
            self.offset = 0;
        } else if cursor_row - margin < self.offset {
            self.offset = cursor_row - margin;
        } else if self.height <= margin || cursor_row - self.offset >= self.height - margin {
            if eof <= self.height {
                self.offset = 0;
            } else if eof <= margin || cursor_row >= eof - margin {
                self.offset = eof - self.height;
            } else if cursor_row + margin <= self.height {
                self.offset = 0;
            } else {
                self.offset = cursor_row + margin - self.height;
            }
        }
    }
}

/// What an editing context holds, as plain mathematical values.
#[verifier::ext_equal]
pub struct ContextView {
    pub row: int,
    pub col: int,
    pub style: CursorStyle,
    pub lines: Seq<Seq<char>>,
    pub mode: Mode,
    pub should_render: bool,
    pub should_terminate: bool,
    pub offset: int,
    pub height: int,
    pub file_name: Seq<char>,
}

impl ContextView {
    /// The number of characters of line `row`.
    pub open spec fn len_of(self, row: int) -> int {
        self.lines[row].len() as int
    }

    /// The first bound that the cursor breaks, if it breaks one: its row must
    /// be a line of the text, and its column must not lie beyond that line.
    pub open spec fn cursor_error(self) -> Option<BufferError> {
        if self.row >= self.lines.len() {
            Some(BufferError::RowOutOfRange)
        } else if self.col > self.len_of(self.row) {
            Some(BufferError::ColOutOfRange)
        } else {
            None
        }
    }

    /// The text is not empty and the cursor stands in it; the viewport's
    /// measures are not negative.
    pub open spec fn wf(self) -> bool {
        &&& self.lines.len() >= 1
        &&& 0 <= self.row < self.lines.len()
        &&& 0 <= self.col <= self.len_of(self.row)
        &&& 0 <= self.offset
        &&& 0 <= self.height
    }

    /// The viewport's offset is in range for the text.
    pub open spec fn viewport_in_range(self) -> bool {
        offset_in_range(self.offset, self.height, self.lines.len() as int)
    }
}

/// Everything one command works on: cursor, text, mode and viewport of one
/// editing session, and the name of the file the text belongs to.
pub struct Context {
    pub cursor: Cursor,
    pub buffer: Buffer,
    pub app_state: State,
    pub viewport: Viewport,
    pub file_name: String,
}

impl View for Context {
    type V = ContextView;

    open spec fn view(&self) -> ContextView {
        ContextView {
            row: self.cursor.row() as int,
            col: self.cursor.col() as int,
            style: self.cursor.style(),
            lines: self.buffer@,
            mode: self.app_state.mode(),
            should_render: self.app_state.should_render(),
            should_terminate: self.app_state.should_terminate(),
            offset: self.viewport.offset as int,
            height: self.viewport.height as int,
            file_name: self.file_name@,
        }
    }
}

impl Context {
    /// A fresh session over `buffer`: a block cursor at the start of the
    /// text, normal mode, a first render owed.
    pub fn new(buffer: Buffer, viewport: Viewport, file_name: String) -> (context: Self)
        ensures
            context@ == (ContextView {
                row: 0,
                col: 0,
                style: CursorStyle::Block,
                lines: buffer@,
                mode: Mode::Normal,
                should_render: true,
                should_terminate: false,
                offset: viewport.offset as int,
                height: viewport.height as int,
                file_name: file_name@,
            }),
            context@.wf(),
    {
        let n: usize = buffer.len();
        Self { cursor: Cursor::new(), buffer, app_state: State::new(), viewport, file_name }
    }

    /// Tells whether the cursor stands in the text, and if not, which bound
    /// it breaks.
    pub fn check(&self) -> (r: Result<(), BufferError>)
        ensures
            match r {
                Ok(_) => self@.wf(),
                Err(e) => self@.cursor_error() == Some(e),
            },
    {
        let n: usize = self.buffer.len();
        match self.buffer.len_of(self.cursor.row()) {
            Ok(len) => {
                if self.cursor.col() > len {
                    Err(BufferError::ColOutOfRange)
                } else {
                    Ok(())
                }
            },
            Err(e) => Err(e),
        }
    }

    /// Turns the session over to another file, whose lines the caller has
    /// read: the old text is dropped, the cursor goes to the start, the
    /// viewport to the top and the mode to normal, and a render is owed.
    pub fn open_file(&mut self, path: &str, lines: Vec<String>)
        ensures
            final(self)@ == (ContextView {
                row: 0,
                col: 0,
                lines: normalized(lines_of(lines@)),
                mode: Mode::Normal,
                should_render: true,
                offset: 0,
                file_name: path@,
                ..old(self)@
            }),
            final(self)@.wf(),
    {
        self.file_name = path.to_owned();
        self.buffer.replace(lines);
        self.cursor.move_to(0, 0);
        self.viewport.offset = 0;
        self.app_state.set_should_render(true);
        self.app_state.set_mode(Mode::Normal);
    }
}

/// One editing session: the context that commands work on, the handler
/// that turns events into commands, and the renderer that plans what to
/// draw.
pub struct Application {
    context: Context,
    renderer: Renderer,
    event_handler: EventHandler,
}

impl Application {
    /// The context as it stands.
    pub closed spec fn spec_context(&self) -> &Context {
        &self.context
    }

    /// What the event handler holds.
    pub closed spec fn handler(&self) -> HandlerView {
        self.event_handler@
    }

    /// What the renderer holds.
    pub closed spec fn renderer(&self) -> RendererView {
        self.renderer@
    }

    /// A session over `text`, the content of the file `file_name`, in a
    /// window of `win_width` by `win_height` cells. `file_extension` is the
    /// extension of the file's name, if it has one.
    pub fn new(
        text: &str,
        win_width: usize,
        win_height: usize,
        file_name: &str,
        file_extension: Option<&str>,
    ) -> (app: Self)
        requires
            win_height >= UI::STATUS_BAR_HEIGHT,
        ensures
            app.context()@ == (ContextView {
                row: 0,
                col: 0,
                style: CursorStyle::Block,
                lines: normalized(lines_in(text@)),
                mode: Mode::Normal,
                should_render: true,
                should_terminate: false,
                offset: 0,
                height: win_height - UI::STATUS_BAR_HEIGHT,
                file_name: file_name@,
            }),
            app.context()@.wf(),
            app.handler() == (HandlerView {
                normal_table: normal_bindings(),
                normal_pending: Seq::empty(),
                cmd_table: cmd_bindings(),
                cmd_pending: Seq::empty(),
            }),
            app.renderer() == (RendererView {
                win_size: WindowSize { width: win_width, height: win_height },
                line_num_width: 0,
                file_extension: match file_extension {
                    Some(extension) => extension@,
                    None => default_extension(),
                },
                last_viewport_offset: 0,
            }),
    {
        let context = Context::new(
            Buffer::from_text(text),
            Viewport::new(win_height),
            file_name.to_owned(),
        );
        Self {
            context,
            renderer: Renderer::new(win_width, win_height, file_extension),
            event_handler: EventHandler::new(),
        }
    }

    /// Sets the width of the line numbers by the length of the text, and
    /// plans the first frame.
    pub fn init(&mut self) -> (frame: Frame)
        ensures
            final(self).context() == old(self).context(),
            final(self).handler() == old(self).handler(),
            final(self).renderer() == (RendererView {
                line_num_width: digits((old(self).context()@.lines.len() - 1) as nat),
                last_viewport_offset: old(self).context()@.offset,
                ..old(self).renderer()
            }),
            frame@ == (RendererView {
                line_num_width: digits((old(self).context()@.lines.len() - 1) as nat),
                ..old(self).renderer()
            }).frame(old(self).context()@),
    {
        self.renderer.init(&self.context)
    }

    /// Plans the frame that shows the context as it stands.
    pub fn render(&mut self) -> (frame: Frame)
        ensures
            final(self).context() == old(self).context(),
            final(self).handler() == old(self).handler(),
            final(self).renderer() == (RendererView {
                last_viewport_offset: old(self).context()@.offset,
                ..old(self).renderer()
            }),
            frame@ == old(self).renderer().frame(old(self).context()@),
    {
        self.renderer.render(&self.context)
    }

    /// The context as it stands.
    #[verifier::when_used_as_spec(spec_context)]
    pub fn context(&self) -> (context: &Context)
        ensures
            context == self.context(),
    {
        &self.context
    }

    /// The query that is pending in the current mode, as text.
    pub fn cmd_buffer(&self) -> (query: String)
        ensures
            query@ == self.handler().pending(self.context()@.mode),
    {
        self.event_handler.get_cmd_buffer(self.context.app_state.mode())
    }

    /// One cycle: the render flag is lowered, the event becomes a command by
    /// the rules of the current mode, and the command is applied.
    pub fn step(&mut self, event: InputEvent) -> (r: Result<Outcome, BufferError>)
        ensures
            final(self).renderer() == old(self).renderer(),
            final(self).handler() == old(self).handler().after(event, old(self).context()@.mode),
            ({
                let before = ContextView { should_render: false, ..old(self).context()@ };
                let command = old(self).handler().command(event, before.mode);
                match r {
                    Ok(outcome) => {
                        &&& before.refusal(command) is None
                        &&& final(self).context()@ == before.applied(command)
                        &&& outcome.render == command.renders()
                        &&& outcome.effect@ == command.effect()
                    },
                    Err(e) => {
                        &&& before.refusal(command) == Some(e)
                        &&& final(self).context()@ == before
                    },
                }
            }),
            old(self).context()@.wf() ==> final(self).context()@.wf(),
    {
        let mode = self.context.app_state.mode();
        self.context.app_state.set_should_render(false);
        let command = self.event_handler.handle(event, mode);
        command.execute(&mut self.context)
    }

    /// Turns the session over to the file `path`, whose content `text` the
    /// caller has read.
    pub fn open_file(&mut self, path: &str, text: &str)
        ensures
            final(self).context()@ == (ContextView {
                row: 0,
                col: 0,
                lines: normalized(lines_in(text@)),
                mode: Mode::Normal,
                should_render: true,
                offset: 0,
                file_name: path@,
                ..old(self).context()@
            }),
            final(self).context()@.wf(),
            final(self).handler() == old(self).handler(),
            final(self).renderer() == old(self).renderer(),
    {
        self.context.open_file(path, split_lines(text));
    }
}

} // verus!
