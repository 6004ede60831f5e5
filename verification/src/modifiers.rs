//! Which modifier keys are held, and whether caps lock is lit.
use crate::codes::{
    KEY_LEFTALT, KEY_LEFTCTRL, KEY_LEFTMETA, KEY_LEFTSHIFT, KEY_RIGHTALT, KEY_RIGHTCTRL,
    KEY_RIGHTMETA, KEY_RIGHTSHIFT, LED_CAPSL,
};
use crate::event::{EventSummary, InputEvent};
use crate::key_event_type::KeyEventType;
use vstd::prelude::*;

verus! {

/// The modifiers as the most recent events left them.
///
/// Alt, ctrl, shift and meta follow the key events of either key of that
/// name. Caps lock follows the indicator, not the key: the indicator shows
/// the toggle as the kernel resolved it.
#[derive(Clone, Copy, Debug, PartialEq, Eq, Structural)]
pub struct ModifierState {
    pub alt: bool,
    pub ctrl: bool,
    pub shift: bool,
    pub meta: bool,
    pub capslock: bool,
}

/// Whether a key event's value leaves the key held: pressed or repeating.
pub open spec fn holds(value: i32) -> bool {
    value == 1 || value == 2
}

impl ModifierState {
    /// Nothing held, caps lock off.
    pub open spec fn released() -> ModifierState {
        ModifierState { alt: false, ctrl: false, shift: false, meta: false, capslock: false }
    }

    /// The modifiers after `ev`.
    pub open spec fn after(self, ev: InputEvent) -> ModifierState {
        match ev.summary() {
            EventSummary::Key(code, value) => {
                if code == KEY_LEFTALT || code == KEY_RIGHTALT {
                    ModifierState { alt: holds(value), ..self }
                } else if code == KEY_LEFTCTRL || code == KEY_RIGHTCTRL {
                    ModifierState { ctrl: holds(value), ..self }
                } else if code == KEY_LEFTSHIFT || code == KEY_RIGHTSHIFT {
                    ModifierState { shift: holds(value), ..self }
                } else if code == KEY_LEFTMETA || code == KEY_RIGHTMETA {
                    ModifierState { meta: holds(value), ..self }
                } else {
                    self
                }
            },
            EventSummary::Led(code, value) => {
                if code == LED_CAPSL {
                    ModifierState { capslock: value == 1, ..self }
                } else {
                    self
                }
            },
            EventSummary::Other(_, _, _) => self,
        }
    }

    /// The modifiers after a sequence of events, first to last.
    pub open spec fn after_all(self, events: Seq<InputEvent>) -> ModifierState
        decreases events.len(),
    {
        if events.len() == 0 {
            self
        } else {
            self.after_all(events.drop_last()).after(events.last())
        }
    }

    /// How many of the five fields differ between two states.
    pub open spec fn distance(self, other: ModifierState) -> nat {
        let alt: nat = if self.alt != other.alt { 1 } else { 0 };
        let ctrl: nat = if self.ctrl != other.ctrl { 1 } else { 0 };
        let shift: nat = if self.shift != other.shift { 1 } else { 0 };
        let meta: nat = if self.meta != other.meta { 1 } else { 0 };
        let capslock: nat = if self.capslock != other.capslock { 1 } else { 0 };
        alt + ctrl + shift + meta + capslock
    }

    pub fn new() -> (state: ModifierState)
        ensures
            state == ModifierState::released(),
    {
        ModifierState { alt: false, ctrl: false, shift: false, meta: false, capslock: false }
    }

    /// Takes one event into account. At most one field changes.
    pub fn update_state(&mut self, ev: &InputEvent)
        ensures
            *final(self) == old(self).after(*ev),
            old(self).distance(*final(self)) <= 1,
    {
        match ev.destructure() {
            EventSummary::Key(code, value) => {
                let held = value == KeyEventType::PRESSED || value == KeyEventType::REPEAT;
                if code == KEY_LEFTALT || code == KEY_RIGHTALT {
                    self.alt = held;
                } else if code == KEY_LEFTCTRL || code == KEY_RIGHTCTRL {
                    self.ctrl = held;
                } else if code == KEY_LEFTSHIFT || code == KEY_RIGHTSHIFT {
                    self.shift = held;
                } else if code == KEY_LEFTMETA || code == KEY_RIGHTMETA {
                    self.meta = held;
                }
            },
            EventSummary::Led(code, value) => {
                if code == LED_CAPSL {
                    self.capslock = value == 1;
                }
            },
            EventSummary::Other(_, _, _) => {},
        }
    }
}

} // verus!
