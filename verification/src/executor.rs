//! The executor: what each command does to the editing context.
//!
//! The first part of this module says, over plain values, what state a
//! command leaves behind and when it is refused. The laws that follow from
//! that come next: the cursor stays in the text, the viewport stays in range,
//! and some commands undo others. The last part is the code that applies a
//! command, proved against the first.

use crate::app::{
    lemma_scrolled_in_range, lemma_scrolled_shows_row, max_offset, row_visible, scrolled, Context,
    ContextView,
};
use crate::buffer::{spliced, BufferError};
use crate::cursor::{CursorStyle, SCROLL_HEIGHT};
use crate::input_handler::{Command, CommandView};
use crate::renderer::{digit_count, gutter_width};
use crate::state::Mode;
use vstd::prelude::*;

verus! {

/// The number of blanks that a tab stands for.
pub const TAB_WIDTH: usize = 4;

/// `x`, or the nearer of `lo` and `hi` where `x` lies outside them.
pub open spec fn clamp(x: int, lo: int, hi: int) -> int {
    if x < lo {
        lo
    } else if x > hi {
        hi
    } else {
        x
    }
}

/// The text that a tab inserts.
pub open spec fn tab_text() -> Seq<char> {
    Seq::new(TAB_WIDTH as nat, |i: int| ' ')
}

/// What the driving loop has to do outside the editor once a command has
/// been applied.
#[derive(Debug, PartialEq, Eq)]
pub enum Effect {
    /// Nothing.
    Nothing,
    /// Write the text to the session's file.
    Save,
    /// Write the text to the session's file, then rebuild and restart.
    SaveAndRestart,
    /// Read the named file and hand its content to
    /// `Application::open_file`, or its lines to `Context::open_file`.
    OpenFile(String),
}

/// An effect as a plain mathematical value.
pub enum EffectView {
    Nothing,
    Save,
    SaveAndRestart,
    OpenFile(Seq<char>),
}

impl View for Effect {
    type V = EffectView;

    open spec fn view(&self) -> EffectView {
        match *self {
            Effect::Nothing => EffectView::Nothing,
            Effect::Save => EffectView::Save,
            Effect::SaveAndRestart => EffectView::SaveAndRestart,
            Effect::OpenFile(path) => EffectView::OpenFile(path@),
        }
    }
}

/// What applying a command hands back: whether the screen has to be drawn
/// again, and what is left to do outside the editor.
#[derive(Debug, PartialEq, Eq)]
pub struct Outcome {
    pub render: bool,
    pub effect: Effect,
}

impl ContextView {
    /// The cursor moved by `dx` columns and then by `dy` rows, stopping at
    /// the ends of the line and of the text; after that the column is pulled
    /// back into the new line, and the viewport follows the cursor.
    pub open spec fn moved(self, dx: int, dy: int) -> ContextView {
        let col = clamp(self.col + dx, 0, self.len_of(self.row));
        let row = clamp(self.row + dy, 0, self.lines.len() - 1);
        ContextView {
            row,
            col: clamp(col, 0, self.len_of(row)),
            offset: scrolled(self.offset, self.height, row, self.lines.len() as int),
            should_render: true,
            ..self
        }
    }

    /// The cursor at the end of the first line, the viewport at the top.
    pub open spec fn at_start(self) -> ContextView {
        ContextView { row: 0, col: self.len_of(0), offset: 0, should_render: true, ..self }
    }

    /// The cursor at the end of the last line, the viewport at the bottom.
    pub open spec fn at_end(self) -> ContextView {
        let last = self.lines.len() - 1;
        ContextView {
            row: last,
            col: self.len_of(last),
            offset: max_offset(self.height, self.lines.len() as int),
            should_render: true,
            ..self
        }
    }

    /// `text` put in at the cursor, and the cursor behind it.
    pub open spec fn typed(self, text: Seq<char>) -> ContextView {
        ContextView {
            lines: self.lines.update(self.row, spliced(self.lines[self.row], self.col, 0, text)),
            col: self.col + text.len(),
            should_render: true,
            ..self
        }
    }

    /// The character before the cursor taken out; at the start of a line,
    /// the line joined to the end of the one above; at the start of the text,
    /// nothing.
    pub open spec fn deleted_backward(self) -> ContextView {
        if self.col > 0 {
            ContextView {
                lines: self.lines.update(self.row, self.lines[self.row].remove(self.col - 1)),
                col: self.col - 1,
                should_render: true,
                ..self
            }
        } else if self.row > 0 {
            let above = self.lines[self.row - 1];
            ContextView {
                lines: self.lines.update(self.row - 1, above + self.lines[self.row]).remove(
                    self.row,
                ),
                row: self.row - 1,
                col: above.len() as int,
                should_render: true,
                ..self
            }
        } else {
            ContextView { should_render: true, ..self }
        }
    }

    /// The line split at the cursor: what lies before it stays, what lies
    /// behind it becomes a new line below, and the cursor goes to the start
    /// of that line.
    pub open spec fn split(self) -> ContextView {
        let line = self.lines[self.row];
        ContextView {
            lines: self.lines.update(self.row, line.take(self.col)).insert(
                self.row + 1,
                line.skip(self.col),
            ),
            row: self.row + 1,
            col: 0,
            should_render: true,
            ..self
        }
    }

    /// An empty line put in as line `row`, the cursor at its start, ready for
    /// typing.
    pub open spec fn opened(self, row: int) -> ContextView {
        ContextView {
            lines: self.lines.insert(row, Seq::empty()),
            row,
            col: 0,
            mode: Mode::Edit,
            style: CursorStyle::Bar,
            should_render: true,
            ..self
        }
    }

    /// The cursor at the end of its line, ready for typing.
    pub open spec fn appending(self) -> ContextView {
        ContextView {
            col: self.len_of(self.row),
            mode: Mode::Edit,
            style: CursorStyle::Bar,
            should_render: true,
            ..self
        }
    }

    /// The cursor where the pointer was pressed: the screen row counted from
    /// the viewport's offset, the screen column less the gutter, stopping at
    /// the ends of the line.
    pub open spec fn pointed(self, screen_row: int, screen_col: int) -> ContextView {
        let row = screen_row + self.offset;
        ContextView {
            row,
            col: clamp(screen_col - gutter_width(self.lines.len()), 0, self.len_of(row)),
            should_render: true,
            ..self
        }
    }

    /// The viewport one line up, unless it is at the top, and the cursor
    /// with it as far as the text goes.
    pub open spec fn scrolled_up(self) -> ContextView {
        if self.offset > 0 {
            let row = clamp(self.row - 1, 0, self.lines.len() - 1);
            ContextView {
                offset: self.offset - 1,
                row,
                col: clamp(self.col, 0, self.len_of(row)),
                should_render: true,
                ..self
            }
        } else {
            ContextView { should_render: true, ..self }
        }
    }

    /// The viewport one line down, unless it shows the last line, and the
    /// cursor with it as far as the text goes.
    pub open spec fn scrolled_down(self) -> ContextView {
        if self.offset + self.height < self.lines.len() {
            let row = clamp(self.row + 1, 0, self.lines.len() - 1);
            ContextView {
                offset: self.offset + 1,
                row,
                col: clamp(self.col, 0, self.len_of(row)),
                should_render: true,
                ..self
            }
        } else {
            ContextView { should_render: true, ..self }
        }
    }

    /// The mode set, and the cursor's shape with it: a bar for typing, a
    /// block otherwise.
    pub open spec fn in_mode(self, mode: Mode) -> ContextView {
        ContextView {
            mode,
            style: if mode == Mode::Edit {
                CursorStyle::Bar
            } else {
                CursorStyle::Block
            },
            should_render: true,
            ..self
        }
    }

    /// Back in normal mode, as after the text has been written out.
    pub open spec fn saved(self) -> ContextView {
        ContextView { mode: Mode::Normal, should_render: true, ..self }
    }

    /// The state that `command` leaves behind where it is not refused.
    pub open spec fn applied(self, command: CommandView) -> ContextView {
        match command {
            CommandView::DoNothing => self,
            CommandView::MoveCursor { dx, dy } => self.moved(dx as int, dy as int),
            CommandView::MoveCursorSOF => self.at_start(),
            CommandView::MoveCursorEOF => self.at_end(),
            CommandView::InsertChar(ch) => self.typed(seq![ch]),
            CommandView::InsertTab => self.typed(tab_text()),
            CommandView::RemoveChar => self.deleted_backward(),
            CommandView::InsertNewLine => self.split(),
            CommandView::InsertEmptyLineBelow => self.opened(self.row + 1),
            CommandView::InsertEmptyLineAbove => self.opened(self.row),
            CommandView::MoveCursorToLineEnd => self.appending(),
            CommandView::MoveCursorToMouse { row, col } => self.pointed(row as int, col as int),
            CommandView::ScrollUp => self.scrolled_up(),
            CommandView::ScrollDown => self.scrolled_down(),
            CommandView::ChangeMode(mode) => self.in_mode(mode),
            CommandView::TerminateApp => ContextView { should_terminate: true, ..self },
            CommandView::Save => self.saved(),
            CommandView::SaveAndRestart => self.saved(),
            CommandView::OpenFile(_) => self,
            CommandView::Undo => self,
        }
    }

    /// Why `command` is refused in this state, if it is.
    ///
    /// A command that starts from the cursor is refused where the cursor does
    /// not stand in the text, and a pointer press is refused below the last
    /// line. Nothing else is refused.
    pub open spec fn refusal(self, command: CommandView) -> Option<BufferError> {
        match command {
            CommandView::MoveCursorToMouse { row, col } => if row + self.offset
                >= self.lines.len() {
                Some(BufferError::RowOutOfRange)
            } else {
                None
            },
            _ => if command.reads_cursor() {
                self.cursor_error()
            } else {
                None
            },
        }
    }
}

impl CommandView {
    /// The command starts from where the cursor stands.
    pub open spec fn reads_cursor(self) -> bool {
        match self {
            CommandView::MoveCursor { .. }
            | CommandView::InsertChar(_)
            | CommandView::InsertTab
            | CommandView::RemoveChar
            | CommandView::InsertNewLine
            | CommandView::InsertEmptyLineBelow
            | CommandView::InsertEmptyLineAbove
            | CommandView::MoveCursorToLineEnd
            | CommandView::ScrollUp
            | CommandView::ScrollDown => true,
            _ => false,
        }
    }

    /// The command asks for the screen to be drawn again.
    pub open spec fn renders(self) -> bool {
        match self {
            CommandView::DoNothing
            | CommandView::TerminateApp
            | CommandView::OpenFile(_)
            | CommandView::Undo => false,
            _ => true,
        }
    }

    /// What the command leaves to do outside the editor.
    pub open spec fn effect(self) -> EffectView {
        match self {
            CommandView::Save => EffectView::Save,
            CommandView::SaveAndRestart => EffectView::SaveAndRestart,
            CommandView::OpenFile(path) => EffectView::OpenFile(path),
            _ => EffectView::Nothing,
        }
    }
}

/// The state after a run of cursor moves, each given by its two deltas.
pub open spec fn moved_through(context: ContextView, moves: Seq<(i32, i32)>) -> ContextView
    decreases moves.len(),
{
    if moves.len() == 0 {
        context
    } else {
        moved_through(context, moves.drop_last()).moved(
            moves.last().0 as int,
            moves.last().1 as int,
        )
    }
}

/// A cursor move leaves the cursor in the text, keeps an offset that was in
/// range in range, and shows the cursor's row wherever the viewport is taller
/// than the scroll margin or holds the whole text.
pub proof fn lemma_moved(context: ContextView, dx: int, dy: int)
    requires
        context.wf(),
    ensures
        context.moved(dx, dy).wf(),
        context.moved(dx, dy).lines == context.lines,
        context.moved(dx, dy).height == context.height,
        context.viewport_in_range() ==> context.moved(dx, dy).viewport_in_range(),
        context.height > SCROLL_HEIGHT || context.lines.len() <= context.height
            ==> row_visible(
            context.moved(dx, dy).offset,
            context.height,
            context.moved(dx, dy).row,
        ),
{
    let after = context.moved(dx, dy);
    let total = context.lines.len() as int;
    if context.viewport_in_range() {
        lemma_scrolled_in_range(context.offset, context.height, after.row, total);
    }
    if context.height > SCROLL_HEIGHT || total <= context.height {
        lemma_scrolled_shows_row(context.offset, context.height, after.row, total);
    }
}

/// After every step of any run of cursor moves the cursor stands in the
/// text: its row is a line, and its column lies in that line or at its end.
pub proof fn lemma_moves_stay_in_text(context: ContextView, moves: Seq<(i32, i32)>, steps: int)
    requires
        context.wf(),
        0 <= steps <= moves.len(),
    ensures
        moved_through(context, moves.take(steps)).wf(),
        moved_through(context, moves.take(steps)).lines == context.lines,
        moved_through(context, moves.take(steps)).height == context.height,
        context.viewport_in_range() ==> moved_through(
            context,
            moves.take(steps),
        ).viewport_in_range(),
    decreases steps,
{
    if steps > 0 {
        let done = moves.take(steps);
        assert(done.drop_last() =~= moves.take(steps - 1));
        lemma_moves_stay_in_text(context, moves, steps - 1);
        lemma_moved(
            moved_through(context, moves.take(steps - 1)),
            done.last().0 as int,
            done.last().1 as int,
        );
    }
}

/// A command that is not refused leaves a cursor that stood in the text in
/// the text.
pub proof fn lemma_applied_wf(context: ContextView, command: CommandView)
    requires
        context.wf(),
        context.refusal(command) is None,
    ensures
        context.applied(command).wf(),
{
    let line = context.lines[context.row];
    match command {
        CommandView::MoveCursor { dx, dy } => {
            lemma_moved(context, dx as int, dy as int);
        },
        CommandView::InsertChar(ch) => {
            assert(spliced(line, context.col, 0, seq![ch]).len() == line.len() + 1);
        },
        CommandView::InsertTab => {
            assert(spliced(line, context.col, 0, tab_text()).len() == line.len() + TAB_WIDTH);
        },
        _ => {},
    }
}

/// Every command but the one that joins two lines keeps an offset that was
/// in range in range.
pub proof fn lemma_applied_viewport(context: ContextView, command: CommandView)
    requires
        context.wf(),
        context.viewport_in_range(),
        context.refusal(command) is None,
        !(command is RemoveChar && context.col == 0 && context.row > 0),
    ensures
        context.applied(command).viewport_in_range(),
{
    match command {
        CommandView::MoveCursor { dx, dy } => {
            lemma_moved(context, dx as int, dy as int);
        },
        _ => {},
    }
}

/// The mode changes only by the command that sets it, by the commands that
/// get ready for typing, and by saving, which ends in normal mode.
pub proof fn lemma_mode_is_kept(context: ContextView, command: CommandView)
    requires
        !(command is ChangeMode),
        !(command is InsertEmptyLineBelow),
        !(command is InsertEmptyLineAbove),
        !(command is MoveCursorToLineEnd),
        !(command is Save),
        !(command is SaveAndRestart),
    ensures
        context.applied(command).mode == context.mode,
{
}

/// Only typing, deleting backward, splitting a line and opening a line
/// change the text.
pub proof fn lemma_text_is_kept(context: ContextView, command: CommandView)
    requires
        !(command is InsertChar),
        !(command is InsertTab),
        !(command is RemoveChar),
        !(command is InsertNewLine),
        !(command is InsertEmptyLineBelow),
        !(command is InsertEmptyLineAbove),
    ensures
        context.applied(command).lines == context.lines,
{
}

/// Typing one text after another is typing the two as one.
pub proof fn lemma_typed_twice(context: ContextView, first: Seq<char>, second: Seq<char>)
    requires
        context.wf(),
    ensures
        context.typed(first).typed(second) == context.typed(first + second),
{
    let line = context.lines[context.row];
    let once = spliced(line, context.col, 0, first);
    assert(spliced(once, context.col + first.len(), 0, second) =~= spliced(
        line,
        context.col,
        0,
        first + second,
    ));
    assert(context.typed(first).typed(second).lines =~= context.typed(first + second).lines);
}

/// Deleting backward takes back what typing one character put in.
pub proof fn lemma_typed_undone(context: ContextView, ch: char)
    requires
        context.wf(),
    ensures
        context.typed(seq![ch]).deleted_backward().lines == context.lines,
        context.typed(seq![ch]).deleted_backward().row == context.row,
        context.typed(seq![ch]).deleted_backward().col == context.col,
{
    let line = context.lines[context.row];
    let longer = spliced(line, context.col, 0, seq![ch]);
    assert(longer.remove(context.col) =~= line);
    assert(context.typed(seq![ch]).deleted_backward().lines =~= context.lines);
}

/// Splitting a line and then deleting backward gives the text and the
/// cursor back.
pub proof fn lemma_split_undone(context: ContextView)
    requires
        context.wf(),
    ensures
        context.split().deleted_backward().lines == context.lines,
        context.split().deleted_backward().row == context.row,
        context.split().deleted_backward().col == context.col,
{
    let line = context.lines[context.row];
    let parted = context.split();
    assert(parted.lines[context.row] == line.take(context.col));
    assert(parted.lines[context.row + 1] == line.skip(context.col));
    assert(line.take(context.col) + line.skip(context.col) =~= line);
    assert(parted.deleted_backward().lines =~= context.lines);
}

/// The value of a result that cannot be an error.
fn sure<T>(r: Result<T, BufferError>) -> (v: T)
    requires
        r is Ok,
    ensures
        r == Ok::<T, BufferError>(v),
{
    match r {
        Ok(v) => v,
        Err(_) => unreached(),
    }
}

/// `pos` moved by `delta`, stopping at 0 and at `limit`.
fn shifted(pos: usize, delta: i32, limit: usize) -> (r: usize)
    requires
        pos <= limit,
    ensures
        r == clamp(pos + delta, 0, limit as int),
{
    if delta < 0 {
        let back: usize = (0 - delta as i64) as usize;
        if back > pos {
            0
        } else {
            pos - back
        }
    } else {
        let forth: usize = delta as usize;
        if forth > limit - pos {
            limit
        } else {
            pos + forth
        }
    }
}

/// Moves the cursor by `dx` columns and `dy` rows inside the text, and lets
/// the viewport follow.
fn move_cursor(context: &mut Context, dx: i32, dy: i32)
    requires
        old(context)@.wf(),
    ensures
        final(context)@ == old(context)@.moved(dx as int, dy as int),
{
    let row: usize = context.cursor.row();
    let col: usize = context.cursor.col();
    let total: usize = context.buffer.len();
    let len: usize = sure(context.buffer.len_of(row));
    let col: usize = shifted(col, dx, len);
    let row: usize = shifted(row, dy, total - 1);
    let len: usize = sure(context.buffer.len_of(row));
    let col: usize = if col > len {
        len
    } else {
        col
    };
    context.cursor.move_to(row, col);
    context.viewport.update(row, total);
    context.app_state.set_should_render(true);
}

/// Puts the cursor at the end of the first line and the viewport at the top.
fn go_to_start(context: &mut Context)
    ensures
        final(context)@ == old(context)@.at_start(),
{
    let total: usize = context.buffer.len();
    let len: usize = sure(context.buffer.len_of(0));
    context.viewport.offset = 0;
    context.cursor.move_to(0, len);
    context.app_state.set_should_render(true);
}

/// Puts the cursor at the end of the last line and the viewport at the
/// bottom.
fn go_to_end(context: &mut Context)
    ensures
        final(context)@ == old(context)@.at_end(),
{
    let total: usize = context.buffer.len();
    let last: usize = total - 1;
    let len: usize = sure(context.buffer.len_of(last));
    context.viewport.offset = if total > context.viewport.height {
        total - context.viewport.height
    } else {
        0
    };
    context.cursor.move_to(last, len);
    context.app_state.set_should_render(true);
}

/// Puts `ch` in at the cursor and the cursor behind it.
fn type_char(context: &mut Context, ch: char)
    requires
        old(context)@.wf(),
    ensures
        final(context)@ == old(context)@.typed(seq![ch]),
{
    let row: usize = context.cursor.row();
    let col: usize = context.cursor.col();
    sure(context.buffer.insert_char(row, col, ch));
    // The line has a length, so the column behind the new character is a
    // machine number.
    let len: usize = sure(context.buffer.len_of(row));
    context.cursor.move_right(1);
    context.app_state.set_should_render(true);
    proof {
        let line = old(context)@.lines[row as int];
        assert(line.insert(col as int, ch) =~= spliced(line, col as int, 0, seq![ch]));
    }
}

/// Puts a tab's worth of blanks in at the cursor and the cursor behind them.
fn type_tab(context: &mut Context)
    requires
        old(context)@.wf(),
    ensures
        final(context)@ == old(context)@.typed(tab_text()),
{
    let row: usize = context.cursor.row();
    let col: usize = context.cursor.col();
    let blanks = "    ".to_owned();
    proof {
        reveal_strlit("    ");
        assert(blanks@ =~= tab_text());
    }
    sure(context.buffer.insert_string(row, col, &blanks));
    // The line has a length, so the column behind the blanks is a machine
    // number.
    let len: usize = sure(context.buffer.len_of(row));
    context.cursor.move_right(TAB_WIDTH);
    context.app_state.set_should_render(true);
}

/// Takes out the character before the cursor, or joins the line to the one
/// above where the cursor stands at its start.
fn delete_backward(context: &mut Context)
    requires
        old(context)@.wf(),
    ensures
        final(context)@ == old(context)@.deleted_backward(),
{
    let row: usize = context.cursor.row();
    let col: usize = context.cursor.col();
    if col > 0 {
        sure(context.buffer.remove_char(row, col - 1));
        context.cursor.move_left(1);
    } else if row > 0 {
        let above: usize = sure(context.buffer.len_of(row - 1));
        let line = sure(context.buffer.get(row)).clone();
        sure(context.buffer.insert_string(row - 1, above, &line));
        sure(context.buffer.remove(row));
        context.cursor.move_up(1);
        context.cursor.move_to_col(above);
        proof {
            let lines = old(context)@.lines;
            let upper = lines[row - 1];
            assert(spliced(upper, above as int, 0, line@) =~= upper + lines[row as int]);
            assert(context@.lines =~= lines.update(row - 1, upper + lines[row as int]).remove(
                row as int,
            ));
        }
    }
    context.app_state.set_should_render(true);
}

/// Splits the line at the cursor and puts the cursor at the start of the
/// new line.
fn split_line(context: &mut Context)
    requires
        old(context)@.wf(),
    ensures
        final(context)@ == old(context)@.split(),
{
    let row: usize = context.cursor.row();
    let col: usize = context.cursor.col();
    let total: usize = context.buffer.len();
    let len: usize = sure(context.buffer.len_of(row));
    let rear = sure(context.buffer.get_string(row, col, len - col));
    sure(context.buffer.remove_string(row, col, len - col));
    sure(context.buffer.insert(row + 1, &rear));
    context.cursor.move_down(1);
    context.cursor.move_to_col(0);
    context.app_state.set_should_render(true);
    proof {
        let lines = old(context)@.lines;
        let line = lines[row as int];
        assert(rear@ =~= line.skip(col as int));
        assert(spliced(line, col as int, len - col, Seq::empty()) =~= line.take(col as int));
    }
}

/// Puts an empty line in below or above the cursor's line and the cursor at
/// its start, ready for typing.
fn open_line(context: &mut Context, below: bool)
    requires
        old(context)@.wf(),
    ensures
        final(context)@ == old(context)@.opened(
            if below {
                old(context)@.row + 1
            } else {
                old(context)@.row
            },
        ),
{
    let total: usize = context.buffer.len();
    let row: usize = if below {
        context.cursor.row() + 1
    } else {
        context.cursor.row()
    };
    let blank = String::new();
    sure(context.buffer.insert(row, &blank));
    context.cursor.move_to(row, 0);
    context.app_state.set_mode(Mode::Edit);
    context.cursor.set_style(CursorStyle::Bar);
    context.app_state.set_should_render(true);
}

/// Puts the cursor at the end of its line, ready for typing.
fn append_to_line(context: &mut Context)
    requires
        old(context)@.wf(),
    ensures
        final(context)@ == old(context)@.appending(),
{
    let len: usize = sure(context.buffer.len_of(context.cursor.row()));
    context.cursor.move_to_col(len);
    context.app_state.set_mode(Mode::Edit);
    context.cursor.set_style(CursorStyle::Bar);
    context.app_state.set_should_render(true);
}

/// Puts the cursor where the pointer was pressed, if that is a line of the
/// text.
fn point_at(context: &mut Context, screen_row: usize, screen_col: usize) -> (r: Result<
    (),
    BufferError,
>)
    ensures
        match r {
            Ok(_) => screen_row + old(context)@.offset < old(context)@.lines.len()
                && final(context)@ == old(context)@.pointed(screen_row as int, screen_col as int),
            Err(e) => screen_row + old(context)@.offset >= old(context)@.lines.len() && e
                == BufferError::RowOutOfRange && final(context)@ == old(context)@,
        },
{
    let total: usize = context.buffer.len();
    let offset: usize = context.viewport.offset;
    if screen_row >= total || offset >= total - screen_row {
        return Err(BufferError::RowOutOfRange);
    }
    let row: usize = screen_row + offset;
    let len: usize = sure(context.buffer.len_of(row));
    let gutter: usize = digit_count(total - 1) + 1;
    let col: usize = if screen_col <= gutter {
        0
    } else if screen_col - gutter > len {
        len
    } else {
        screen_col - gutter
    };
    context.cursor.move_to(row, col);
    context.app_state.set_should_render(true);
    Ok(())
}

/// Moves the viewport and the cursor one line up.
fn scroll_up(context: &mut Context)
    requires
        old(context)@.wf(),
    ensures
        final(context)@ == old(context)@.scrolled_up(),
{
    if context.viewport.offset > 0 {
        context.viewport.offset = context.viewport.offset - 1;
        let total: usize = context.buffer.len();
        let row: usize = shifted(context.cursor.row(), -1, total - 1);
        let len: usize = sure(context.buffer.len_of(row));
        let col: usize = if context.cursor.col() > len {
            len
        } else {
            context.cursor.col()
        };
        context.cursor.move_to(row, col);
    }
    context.app_state.set_should_render(true);
}

/// Moves the viewport and the cursor one line down.
fn scroll_down(context: &mut Context)
    requires
        old(context)@.wf(),
    ensures
        final(context)@ == old(context)@.scrolled_down(),
{
    let total: usize = context.buffer.len();
    let offset: usize = context.viewport.offset;
    if offset < total && context.viewport.height < total - offset {
        context.viewport.offset = offset + 1;
        let row: usize = shifted(context.cursor.row(), 1, total - 1);
        let len: usize = sure(context.buffer.len_of(row));
        let col: usize = if context.cursor.col() > len {
            len
        } else {
            context.cursor.col()
        };
        context.cursor.move_to(row, col);
    }
    context.app_state.set_should_render(true);
}

/// Sets the mode and the cursor's shape that goes with it.
fn change_mode(context: &mut Context, mode: Mode)
    ensures
        final(context)@ == old(context)@.in_mode(mode),
{
    context.app_state.set_mode(mode);
    match mode {
        Mode::Cmd | Mode::Normal => context.cursor.set_style(CursorStyle::Block),
        Mode::Edit => context.cursor.set_style(CursorStyle::Bar),
    }
    context.app_state.set_should_render(true);
}

impl Command {
    /// Applies the command to `context`.
    ///
    /// Either the command is refused, with the bound that was broken, and
    /// `context` is as it was; or `context` is in the state that the command
    /// leaves behind, and the outcome says whether to draw the screen again
    /// and what is left to do outside the editor.
    pub fn execute(&self, context: &mut Context) -> (r: Result<Outcome, BufferError>)
        ensures
            match r {
                Ok(outcome) => {
                    &&& old(context)@.refusal(self@) is None
                    &&& final(context)@ == old(context)@.applied(self@)
                    &&& outcome.render == self@.renders()
                    &&& outcome.effect@ == self@.effect()
                },
                Err(e) => {
                    &&& old(context)@.refusal(self@) == Some(e)
                    &&& final(context)@ == old(context)@
                },
            },
            old(context)@.wf() ==> final(context)@.wf(),
    {
        let mut effect = Effect::Nothing;
        let mut render = true;
        match self {
            Command::DoNothing | Command::Undo => {
                render = false;
            },
            Command::MoveCursorSOF => go_to_start(context),
            Command::MoveCursorEOF => go_to_end(context),
            Command::MoveCursorToMouse { row, col } => {
                if let Err(e) = point_at(context, *row, *col) {
                    return Err(e);
                }
            },
            Command::ChangeMode(mode) => change_mode(context, *mode),
            Command::TerminateApp => {
                context.app_state.terminate_app();
                render = false;
            },
            Command::Save => {
                context.app_state.set_mode(Mode::Normal);
                context.app_state.set_should_render(true);
                effect = Effect::Save;
            },
            Command::SaveAndRestart => {
                context.app_state.set_mode(Mode::Normal);
                context.app_state.set_should_render(true);
                effect = Effect::SaveAndRestart;
            },
            Command::OpenFile(path) => {
                render = false;
                effect = Effect::OpenFile(path.clone());
            },
            _ => {
                if let Err(e) = context.check() {
                    return Err(e);
                }
                match self {
                    Command::MoveCursor { dx, dy } => move_cursor(context, *dx, *dy),
                    Command::InsertChar(ch) => type_char(context, *ch),
                    Command::InsertTab => type_tab(context),
                    Command::RemoveChar => delete_backward(context),
                    Command::InsertNewLine => split_line(context),
                    Command::InsertEmptyLineBelow => open_line(context, true),
                    Command::InsertEmptyLineAbove => open_line(context, false),
                    Command::MoveCursorToLineEnd => append_to_line(context),
                    Command::ScrollUp => scroll_up(context),
                    Command::ScrollDown => scroll_down(context),
                    _ => {},
                }
            },
        }
        Ok(Outcome { render, effect })
    }
}

} // verus!
