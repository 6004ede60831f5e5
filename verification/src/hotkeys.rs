//! Hotkeys: commands bound to a key pressed with ctrl and shift held.
use crate::codes::KEY_Z;
use crate::event::InputEvent;
use crate::modifiers::ModifierState;
use vstd::prelude::*;

verus! {

/// The command bound to ctrl, shift and `Z`.
pub const WHICH_KEY: &'static str = "wlr-which-key";

/// The modifiers as one keyboard's events left them.
#[derive(Clone, Copy, Debug)]
pub struct State {
    pub modifiers: ModifierState,
}

impl State {
    /// The command that `ev` fires in a state whose modifiers already
    /// reflect it, if any.
    pub open spec fn fires(modifiers: ModifierState, ev: InputEvent) -> bool {
        modifiers.ctrl && modifiers.shift && ev.is_qualifying_press() && ev.code == KEY_Z
    }

    pub fn new() -> (state: State)
        ensures
            state.modifiers == ModifierState::released(),
    {
        State { modifiers: ModifierState::new() }
    }

    /// Takes one event: brings the modifiers up to date and returns the
    /// command to run, if the event fires a hotkey.
    pub fn process_input(&mut self, ev: InputEvent) -> (command: Option<&'static str>)
        ensures
            final(self).modifiers == old(self).modifiers.after(ev),
            command is Some <==> Self::fires(final(self).modifiers, ev),
            command matches Some(line) ==> line@ == WHICH_KEY@,
    {
        self.update_state(&ev);
        if self.all_modifiers_pressed() && ev.is_not_modifier() && ev.code == KEY_Z {
            Some(WHICH_KEY)
        } else {
            None
        }
    }

    /// Brings the modifiers up to date with `ev`.
    pub fn update_state(&mut self, ev: &InputEvent)
        ensures
            final(self).modifiers == old(self).modifiers.after(*ev),
    {
        self.modifiers.update_state(ev);
    }

    /// Whether the modifiers that fire a hotkey, ctrl and shift, are held.
    pub fn all_modifiers_pressed(&self) -> (all: bool)
        ensures
            all == (self.modifiers.ctrl && self.modifiers.shift),
    {
        self.modifiers.ctrl && self.modifiers.shift
    }
}

} // verus!
