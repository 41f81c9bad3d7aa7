//! The decisions of the Ctrl-C handler: the first press cancels the runtime, a second press
//! exits at once.

use vstd::prelude::*;

verus! {

/// What the handler must do for a press of Ctrl-C.
#[derive(Debug, Clone, Copy, PartialEq, Eq)]
pub enum CtrlCAction {
    /// Cancel the runtime (after running the user's callback, if there is one).
    Cancel,
    /// Exit the process immediately.
    ExitNow,
}

/// Whether Ctrl-C was pressed after a press, and the action for the press, given whether it
/// was pressed before.
pub open spec fn press(pressed_before: bool) -> (bool, CtrlCAction) {
    (true, if pressed_before {
        CtrlCAction::ExitNow
    } else {
        CtrlCAction::Cancel
    })
}

/// Remembers whether Ctrl-C was pressed already.
pub struct CtrlCState {
    already_called: bool,
}

impl CtrlCState {
    pub closed spec fn pressed(&self) -> bool {
        self.already_called
    }

    /// Not pressed yet.
    pub fn new() -> (s: Self)
        ensures
            !s.pressed(),
    {
        CtrlCState { already_called: false }
    }

    /// Handles one press: the first is answered with `Cancel`, every later one with `ExitNow`.
    pub fn on_press(&mut self) -> (a: CtrlCAction)
        ensures
            (final(self).pressed(), a) == press(old(self).pressed()),
    {
        if self.already_called {
            CtrlCAction::ExitNow
        } else {
            self.already_called = true;
            CtrlCAction::Cancel
        }
    }
}

/// The first press cancels, and every press after any press exits.
pub proof fn law_only_first_press_cancels(pressed_before: bool)
    ensures
        press(false).1 == CtrlCAction::Cancel,
        press(press(pressed_before).0).1 == CtrlCAction::ExitNow,
{
}

} // verus!
