//! Commands, and the handler that turns input events into them.

use crate::cmd_dispatcher::{left_pending, resolution, CmdDispatcher, ResolutionView};
use crate::state::Mode;
use vstd::prelude::*;

verus! {

/// One thing the editor can be told to do. The dispatcher makes a command,
/// the executor consumes it.
#[derive(Debug, PartialEq, Eq)]
pub enum Command {
    DoNothing,
    MoveCursor { dx: i32, dy: i32 },
    MoveCursorSOF,
    MoveCursorEOF,
    InsertChar(char),
    InsertTab,
    RemoveChar,
    InsertNewLine,
    InsertEmptyLineBelow,
    InsertEmptyLineAbove,
    MoveCursorToLineEnd,
    MoveCursorToMouse { row: usize, col: usize },
    ScrollUp,
    ScrollDown,
    ChangeMode(Mode),
    TerminateApp,
    Save,
    SaveAndRestart,
    OpenFile(String),
    Undo,
}

/// A command as a plain mathematical value.
pub enum CommandView {
    DoNothing,
    MoveCursor { dx: i32, dy: i32 },
    MoveCursorSOF,
    MoveCursorEOF,
    InsertChar(char),
    InsertTab,
    RemoveChar,
    InsertNewLine,
    InsertEmptyLineBelow,
    InsertEmptyLineAbove,
    MoveCursorToLineEnd,
    MoveCursorToMouse { row: usize, col: usize },
    ScrollUp,
    ScrollDown,
    ChangeMode(Mode),
    TerminateApp,
    Save,
    SaveAndRestart,
    OpenFile(Seq<char>),
    Undo,
}

impl View for Command {
    type V = CommandView;

    open spec fn view(&self) -> CommandView {
        match *self {
            Command::DoNothing => CommandView::DoNothing,
            Command::MoveCursor { dx, dy } => CommandView::MoveCursor { dx, dy },
            Command::MoveCursorSOF => CommandView::MoveCursorSOF,
            Command::MoveCursorEOF => CommandView::MoveCursorEOF,
            Command::InsertChar(ch) => CommandView::InsertChar(ch),
            Command::InsertTab => CommandView::InsertTab,
            Command::RemoveChar => CommandView::RemoveChar,
            Command::InsertNewLine => CommandView::InsertNewLine,
            Command::InsertEmptyLineBelow => CommandView::InsertEmptyLineBelow,
            Command::InsertEmptyLineAbove => CommandView::InsertEmptyLineAbove,
            Command::MoveCursorToLineEnd => CommandView::MoveCursorToLineEnd,
            Command::MoveCursorToMouse { row, col } => CommandView::MoveCursorToMouse { row, col },
            Command::ScrollUp => CommandView::ScrollUp,
            Command::ScrollDown => CommandView::ScrollDown,
            Command::ChangeMode(mode) => CommandView::ChangeMode(mode),
            Command::TerminateApp => CommandView::TerminateApp,
            Command::Save => CommandView::Save,
            Command::SaveAndRestart => CommandView::SaveAndRestart,
            Command::OpenFile(path) => CommandView::OpenFile(path@),
            Command::Undo => CommandView::Undo,
        }
    }
}

impl Clone for Command {
    fn clone(&self) -> (copy: Self)
        ensures
            copy@ == self@,
    {
        match self {
            Command::DoNothing => Command::DoNothing,
            Command::MoveCursor { dx, dy } => Command::MoveCursor { dx: *dx, dy: *dy },
            Command::MoveCursorSOF => Command::MoveCursorSOF,
            Command::MoveCursorEOF => Command::MoveCursorEOF,
            Command::InsertChar(ch) => Command::InsertChar(*ch),
            Command::InsertTab => Command::InsertTab,
            Command::RemoveChar => Command::RemoveChar,
            Command::InsertNewLine => Command::InsertNewLine,
            Command::InsertEmptyLineBelow => Command::InsertEmptyLineBelow,
            Command::InsertEmptyLineAbove => Command::InsertEmptyLineAbove,
            Command::MoveCursorToLineEnd => Command::MoveCursorToLineEnd,
            Command::MoveCursorToMouse { row, col } => Command::MoveCursorToMouse {
                row: *row,
                col: *col,
            },
            Command::ScrollUp => Command::ScrollUp,
            Command::ScrollDown => Command::ScrollDown,
            Command::ChangeMode(mode) => Command::ChangeMode(*mode),
            Command::TerminateApp => Command::TerminateApp,
            Command::Save => Command::Save,
            Command::SaveAndRestart => Command::SaveAndRestart,
            Command::OpenFile(path) => Command::OpenFile(path.clone()),
            Command::Undo => Command::Undo,
        }
    }
}

/// One event from the terminal, as far as the editor tells events apart.
/// Pointer positions are screen cells, counted from the top left corner.
#[derive(Debug, Clone, Copy, PartialEq, Eq, Structural)]
pub enum InputEvent {
    Char(char),
    Backspace,
    Enter,
    Tab,
    Esc,
    Right,
    Left,
    Up,
    Down,
    ScrollUp,
    ScrollDown,
    MouseDown { row: u16, column: u16 },
    /// Any other key, pointer or terminal event.
    Other,
}

impl InputEvent {
    /// What a pointer event asks for while text is shown, and nothing for
    /// any other event.
    pub open spec fn pointer_command(self) -> CommandView {
        match self {
            InputEvent::ScrollUp => CommandView::ScrollUp,
            InputEvent::ScrollDown => CommandView::ScrollDown,
            InputEvent::MouseDown { row, column } => CommandView::MoveCursorToMouse {
                row: row as usize,
                col: column as usize,
            },
            _ => CommandView::DoNothing,
        }
    }

    /// What the event asks for while typing: a key stands for itself, and no
    /// key sequence is looked up.
    pub open spec fn edit_command(self) -> CommandView {
        match self {
            InputEvent::Char(ch) => CommandView::InsertChar(ch),
            InputEvent::Backspace => CommandView::RemoveChar,
            InputEvent::Enter => CommandView::InsertNewLine,
            InputEvent::Tab => CommandView::InsertTab,
            InputEvent::Esc => CommandView::ChangeMode(Mode::Normal),
            InputEvent::Right => CommandView::MoveCursor { dx: 1, dy: 0 },
            InputEvent::Left => CommandView::MoveCursor { dx: (-1) as i32, dy: 0 },
            InputEvent::Up => CommandView::MoveCursor { dx: 0, dy: (-1) as i32 },
            InputEvent::Down => CommandView::MoveCursor { dx: 0, dy: 1 },
            _ => self.pointer_command(),
        }
    }
}

/// The key sequences of normal mode.
pub open spec fn normal_bindings() -> Map<Seq<char>, CommandView> {
    Map::<Seq<char>, CommandView>::empty()
        .insert("h"@, CommandView::MoveCursor { dx: (-1) as i32, dy: 0 })
        .insert("j"@, CommandView::MoveCursor { dx: 0, dy: 1 })
        .insert("k"@, CommandView::MoveCursor { dx: 0, dy: (-1) as i32 })
        .insert("l"@, CommandView::MoveCursor { dx: 1, dy: 0 })
        .insert("gg"@, CommandView::MoveCursorSOF)
        .insert("G"@, CommandView::MoveCursorEOF)
        .insert("i"@, CommandView::ChangeMode(Mode::Edit))
        .insert("o"@, CommandView::InsertEmptyLineBelow)
        .insert("O"@, CommandView::InsertEmptyLineAbove)
        .insert("A"@, CommandView::MoveCursorToLineEnd)
        .insert(":"@, CommandView::ChangeMode(Mode::Cmd))
}

/// The command names of command mode.
pub open spec fn cmd_bindings() -> Map<Seq<char>, CommandView> {
    Map::<Seq<char>, CommandView>::empty()
        .insert("e"@, CommandView::OpenFile(Seq::empty()))
        .insert("w"@, CommandView::Save)
        .insert("W"@, CommandView::SaveAndRestart)
        .insert("q"@, CommandView::TerminateApp)
}

/// The command that a resolution stands for: its own if it is complete,
/// none otherwise.
pub open spec fn command_of(resolution: ResolutionView) -> CommandView {
    match resolution {
        ResolutionView::Complete(command) => command,
        _ => CommandView::DoNothing,
    }
}

/// What an event handler holds: for each of the two modes that look key
/// sequences up, the registered sequences and the pending query.
pub struct HandlerView {
    pub normal_table: Map<Seq<char>, CommandView>,
    pub normal_pending: Seq<char>,
    pub cmd_table: Map<Seq<char>, CommandView>,
    pub cmd_pending: Seq<char>,
}

impl HandlerView {
    /// The command that `event` comes to in `mode`.
    ///
    /// While typing, the event stands for itself. In normal mode a key joins
    /// the pending query, which is resolved at once. In command mode a key
    /// joins the pending query, and Enter resolves it.
    pub open spec fn command(self, event: InputEvent, mode: Mode) -> CommandView {
        match mode {
            Mode::Edit => event.edit_command(),
            Mode::Normal => match event {
                InputEvent::Char(ch) => command_of(
                    resolution(self.normal_table, self.normal_pending.push(ch)),
                ),
                InputEvent::Esc => CommandView::TerminateApp,
                _ => event.pointer_command(),
            },
            Mode::Cmd => match event {
                InputEvent::Enter => command_of(resolution(self.cmd_table, self.cmd_pending)),
                InputEvent::Esc => CommandView::ChangeMode(Mode::Normal),
                _ => CommandView::DoNothing,
            },
        }
    }

    /// The handler after `event` has come in `mode`.
    pub open spec fn after(self, event: InputEvent, mode: Mode) -> HandlerView {
        match (mode, event) {
            (Mode::Normal, InputEvent::Char(ch)) => HandlerView {
                normal_pending: left_pending(self.normal_table, self.normal_pending.push(ch)),
                ..self
            },
            (Mode::Cmd, InputEvent::Char(ch)) => HandlerView {
                cmd_pending: self.cmd_pending.push(ch),
                ..self
            },
            (Mode::Cmd, InputEvent::Enter) => HandlerView {
                cmd_pending: left_pending(self.cmd_table, self.cmd_pending),
                ..self
            },
            _ => self,
        }
    }

    /// The query that is pending in `mode`. Nothing is ever pending while
    /// typing.
    pub open spec fn pending(self, mode: Mode) -> Seq<char> {
        match mode {
            Mode::Cmd => self.cmd_pending,
            Mode::Normal => self.normal_pending,
            Mode::Edit => Seq::empty(),
        }
    }
}

/// Turns input events into commands, by the rules of the current mode.
pub struct EventHandler {
    normal_dispatcher: CmdDispatcher,
    cmd_dispatcher: CmdDispatcher,
}

impl View for EventHandler {
    type V = HandlerView;

    closed spec fn view(&self) -> HandlerView {
        HandlerView {
            normal_table: self.normal_dispatcher.table(),
            normal_pending: self.normal_dispatcher.pending(),
            cmd_table: self.cmd_dispatcher.table(),
            cmd_pending: self.cmd_dispatcher.pending(),
        }
    }
}

impl EventHandler {
    /// A handler with the editor's key sequences and command names, and
    /// nothing pending.
    pub fn new() -> (handler: Self)
        ensures
            handler@ == (HandlerView {
                normal_table: normal_bindings(),
                normal_pending: Seq::empty(),
                cmd_table: cmd_bindings(),
                cmd_pending: Seq::empty(),
            }),
    {
        let mut normal_dispatcher = CmdDispatcher::new();
        normal_dispatcher.register("h", Command::MoveCursor { dx: -1, dy: 0 });
        normal_dispatcher.register("j", Command::MoveCursor { dx: 0, dy: 1 });
        normal_dispatcher.register("k", Command::MoveCursor { dx: 0, dy: -1 });
        normal_dispatcher.register("l", Command::MoveCursor { dx: 1, dy: 0 });
        normal_dispatcher.register("gg", Command::MoveCursorSOF);
        normal_dispatcher.register("G", Command::MoveCursorEOF);
        normal_dispatcher.register("i", Command::ChangeMode(Mode::Edit));
        normal_dispatcher.register("o", Command::InsertEmptyLineBelow);
        normal_dispatcher.register("O", Command::InsertEmptyLineAbove);
        normal_dispatcher.register("A", Command::MoveCursorToLineEnd);
        normal_dispatcher.register(":", Command::ChangeMode(Mode::Cmd));

        let mut cmd_dispatcher = CmdDispatcher::new();
        cmd_dispatcher.register("e", Command::OpenFile(String::new()));
        cmd_dispatcher.register("w", Command::Save);
        cmd_dispatcher.register("W", Command::SaveAndRestart);
        cmd_dispatcher.register("q", Command::TerminateApp);

        Self { normal_dispatcher, cmd_dispatcher }
    }

    /// The query that is pending in `mode`, as text.
    pub fn get_cmd_buffer(&self, mode: Mode) -> (query: String)
        ensures
            query@ == self@.pending(mode),
    {
        match mode {
            Mode::Cmd => self.cmd_dispatcher.get_query(),
            Mode::Normal => self.normal_dispatcher.get_query(),
            Mode::Edit => String::new(),
        }
    }

    /// The command that `event` comes to in `mode`.
    pub fn handle(&mut self, event: InputEvent, mode: Mode) -> (command: Command)
        ensures
            command@ == old(self)@.command(event, mode),
            final(self)@ == old(self)@.after(event, mode),
    {
        match mode {
            Mode::Edit => Self::handle_edit_event(event),
            Mode::Normal => self.handle_normal_event(event),
            Mode::Cmd => self.handle_cmd_event(event),
        }
    }

    fn handle_pointer_event(event: InputEvent) -> (command: Command)
        ensures
            command@ == event.pointer_command(),
    {
        match event {
            InputEvent::ScrollUp => Command::ScrollUp,
            InputEvent::ScrollDown => Command::ScrollDown,
            InputEvent::MouseDown { row, column } => Command::MoveCursorToMouse {
                row: row as usize,
                col: column as usize,
            },
            _ => Command::DoNothing,
        }
    }

    fn handle_edit_event(event: InputEvent) -> (command: Command)
        ensures
            command@ == event.edit_command(),
    {
        match event {
            InputEvent::Char(ch) => Command::InsertChar(ch),
            InputEvent::Backspace => Command::RemoveChar,
            InputEvent::Enter => Command::InsertNewLine,
            InputEvent::Tab => Command::InsertTab,
            InputEvent::Esc => Command::ChangeMode(Mode::Normal),
            InputEvent::Right => Command::MoveCursor { dx: 1, dy: 0 },
            InputEvent::Left => Command::MoveCursor { dx: -1, dy: 0 },
            InputEvent::Up => Command::MoveCursor { dx: 0, dy: -1 },
            InputEvent::Down => Command::MoveCursor { dx: 0, dy: 1 },
            _ => Self::handle_pointer_event(event),
        }
    }

    fn handle_normal_event(&mut self, event: InputEvent) -> (command: Command)
        ensures
            command@ == old(self)@.command(event, Mode::Normal),
            final(self)@ == old(self)@.after(event, Mode::Normal),
    {
        match event {
            InputEvent::Char(ch) => {
                self.normal_dispatcher.push(ch);
                match self.normal_dispatcher.get() {
                    Some(command) => command,
                    None => Command::DoNothing,
                }
            },
            InputEvent::Esc => Command::TerminateApp,
            _ => Self::handle_pointer_event(event),
        }
    }

    fn handle_cmd_event(&mut self, event: InputEvent) -> (command: Command)
        ensures
            command@ == old(self)@.command(event, Mode::Cmd),
            final(self)@ == old(self)@.after(event, Mode::Cmd),
    {
        match event {
            InputEvent::Char(ch) => {
                self.cmd_dispatcher.push(ch);
                Command::DoNothing
            },
            InputEvent::Enter => match self.cmd_dispatcher.get() {
                Some(command) => command,
                None => Command::DoNothing,
            },
            InputEvent::Esc => Command::ChangeMode(Mode::Normal),
            _ => Command::DoNothing,
        }
    }
}

} // verus!
