//! The editing mode and the two flags the driving loop reads.

use vstd::prelude::*;

verus! {

/// The editing mode. It selects the active key table and how a key is read.
#[derive(Debug, Clone, Copy, PartialEq, Eq, Structural)]
pub enum Mode {
    Normal,
    Cmd,
    Edit,
}

/// The state of the session that is neither text nor position: the mode,
/// whether the screen has to be drawn again, and whether the session is over.
pub struct State {
    mode: Mode,
    should_render: bool,
    should_terminate: bool,
}

impl State {
    /// The current mode.
    pub closed spec fn spec_mode(&self) -> Mode {
        self.mode
    }

    /// The screen has to be drawn again.
    pub closed spec fn spec_should_render(&self) -> bool {
        self.should_render
    }

    /// The session is over.
    pub closed spec fn spec_should_terminate(&self) -> bool {
        self.should_terminate
    }

    /// Normal mode, a first render owed, not terminating.
    pub fn new() -> (s: Self)
        ensures
            s.mode() == Mode::Normal,
            s.should_render(),
            !s.should_terminate(),
    {
        Self { mode: Mode::Normal, should_render: true, should_terminate: false }
    }

    /// The current mode.
    #[verifier::when_used_as_spec(spec_mode)]
    pub fn mode(&self) -> (m: Mode)
        ensures
            m == self.mode(),
    {
        self.mode
    }

    /// Sets the mode.
    pub fn set_mode(&mut self, mode: Mode)
        ensures
            final(self).mode() == mode,
            final(self).should_render() == old(self).should_render(),
            final(self).should_terminate() == old(self).should_terminate(),
    {
        self.mode = mode;
    }

    /// Says whether the screen has to be drawn again.
    pub fn set_should_render(&mut self, should_render: bool)
        ensures
            final(self).mode() == old(self).mode(),
            final(self).should_render() == should_render,
            final(self).should_terminate() == old(self).should_terminate(),
    {
        self.should_render = should_render;
    }

    /// Whether the screen has to be drawn again.
    #[verifier::when_used_as_spec(spec_should_render)]
    pub fn should_render(&self) -> (b: bool)
        ensures
            b == self.should_render(),
    {
        self.should_render
    }

    /// Whether the session is over.
    #[verifier::when_used_as_spec(spec_should_terminate)]
    pub fn should_terminate(&self) -> (b: bool)
        ensures
            b == self.should_terminate(),
    {
        self.should_terminate
    }

    /// Raises the termination flag. Nothing lowers it again.
    pub fn terminate_app(&mut self)
        ensures
            final(self).mode() == old(self).mode(),
            final(self).should_render() == old(self).should_render(),
            final(self).should_terminate(),
    {
        self.should_terminate = true;
    }
}

} // verus!
