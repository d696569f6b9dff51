//! Console control events.

use vstd::prelude::*;

verus! {

pub const CTRL_C_EVENT: u32 = 0;

pub const CTRL_BREAK_EVENT: u32 = 1;

/// Whether a quit was already requested.
pub struct QuitRequest {
    requested: bool,
}

impl View for QuitRequest {
    type V = bool;

    closed spec fn view(&self) -> bool {
        self.requested
    }
}

/// What the handler does with an event.
#[derive(Clone, Copy, Debug, PartialEq, Eq, Structural)]
pub enum CtrlAction {
    /// Leave it to the default handler.
    Unhandled,
    /// There is no window to close: flush the log, and leave it to the default handler.
    FlushUnhandled,
    /// Remind on the console that a quit is under way.
    Hint,
    /// Ask the main window to close.
    PostClose,
}

/// What the console is told about a quit under way.
pub fn hint() -> (msg: &'static str)
    ensures
        msg@ == "neopatch: quit already requested; close this console window to force-kill\n"@,
{
    "neopatch: quit already requested; close this console window to force-kill\n"
}

/// Whether an event asks the game to quit.
pub open spec fn asks_to_quit(ctrl_type: u32) -> bool {
    ctrl_type == CTRL_C_EVENT || ctrl_type == CTRL_BREAK_EVENT
}

impl QuitRequest {
    pub fn new() -> (quit: QuitRequest)
        ensures
            quit@ == false,
    {
        QuitRequest { requested: false }
    }

    /// Decides on an event, given the main window (0 for none).
    pub fn handler(&self, ctrl_type: u32, hwnd: usize) -> (action: CtrlAction)
        ensures
            action == (if !asks_to_quit(ctrl_type) {
                CtrlAction::Unhandled
            } else if self@ {
                CtrlAction::Hint
            } else if hwnd == 0 {
                CtrlAction::FlushUnhandled
            } else {
                CtrlAction::PostClose
            }),
    {
        if ctrl_type != CTRL_C_EVENT && ctrl_type != CTRL_BREAK_EVENT {
            CtrlAction::Unhandled
        } else if self.requested {
            CtrlAction::Hint
        } else if hwnd == 0 {
            CtrlAction::FlushUnhandled
        } else {
            CtrlAction::PostClose
        }
    }

    /// Records whether the close could be posted. Returns whether the event is handled;
    /// one that could not be posted is not, after the log was flushed.
    pub fn posted(&mut self, ok: bool) -> (handled: bool)
        ensures
            handled == ok,
            final(self)@ == (old(self)@ || ok),
    {
        if ok {
            self.requested = true;
        }
        ok
    }
}

/// What a handler returns.
impl CtrlAction {
    /// Whether the event is handled, apart from a close that is yet to be posted.
    pub fn is_handled(self) -> (res: bool)
        ensures
            res == (self == CtrlAction::Hint || self == CtrlAction::PostClose),
    {
        match self {
            CtrlAction::Hint | CtrlAction::PostClose => true,
            CtrlAction::Unhandled | CtrlAction::FlushUnhandled => false,
        }
    }
}

/// Whether a hint can be written: standard error is there, and is a console.
pub fn console_hint(handle: usize, invalid: usize, file_type: u32, char_type: u32) -> (res: bool)
    ensures
        res == (handle != 0 && handle != invalid && file_type == char_type),
{
    handle != 0 && handle != invalid && file_type == char_type
}

/// Ctrl+C and Ctrl+Break ask for a quit, and no other event does.
pub proof fn lemma_quit_events(ctrl_type: u32)
    ensures
        asks_to_quit(ctrl_type) <==> ctrl_type < 2,
        CTRL_C_EVENT == 0,
        CTRL_BREAK_EVENT == 1,
{
}

} // verus!
