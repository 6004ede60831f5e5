//! Input events as plain values.
use crate::codes::{
    EV_KEY, EV_LED, KEY_CAPSLOCK, KEY_LEFTALT, KEY_LEFTCTRL, KEY_LEFTMETA, KEY_LEFTSHIFT,
    KEY_RIGHTALT, KEY_RIGHTCTRL, KEY_RIGHTMETA, KEY_RIGHTSHIFT,
};
use crate::key_event_type::KeyEventType;
use vstd::prelude::*;

verus! {

/// The moment an event was stamped, as the kernel reports it: seconds and
/// microseconds on the system clock.
#[derive(Clone, Copy, Debug, PartialEq, Eq, Hash, Structural)]
pub struct Timestamp {
    pub sec: i64,
    pub usec: i64,
}

/// One state change reported by an input device, or destined for the
/// virtual output device.
#[derive(Clone, Copy, Debug, PartialEq, Eq, Hash, Structural)]
pub struct InputEvent {
    pub kind: u16,
    pub code: u16,
    pub value: i32,
    pub timestamp: Timestamp,
}

/// An event told apart by its kind, with the fields that kind carries.
#[derive(Clone, Copy, Debug, PartialEq, Eq, Structural)]
pub enum EventSummary {
    /// A key or button changed state: its code and the raw value.
    Key(u16, i32),
    /// An indicator changed state: its code and the raw value.
    Led(u16, i32),
    /// Any other event: kind, code and value.
    Other(u16, u16, i32),
}

/// Whether `code` is one of the tracked modifier keys (either alt, ctrl,
/// shift or meta key, or caps lock).
pub open spec fn is_modifier_code(code: u16) -> bool {
    ||| code == KEY_LEFTALT
    ||| code == KEY_RIGHTALT
    ||| code == KEY_LEFTCTRL
    ||| code == KEY_RIGHTCTRL
    ||| code == KEY_LEFTSHIFT
    ||| code == KEY_RIGHTSHIFT
    ||| code == KEY_LEFTMETA
    ||| code == KEY_RIGHTMETA
    ||| code == KEY_CAPSLOCK
}

impl InputEvent {
    /// An event with the given fields and a zero timestamp.
    pub fn new(kind: u16, code: u16, value: i32) -> (ev: InputEvent)
        ensures
            ev == (InputEvent { kind, code, value, timestamp: Timestamp { sec: 0, usec: 0 } }),
    {
        InputEvent { kind, code, value, timestamp: Timestamp { sec: 0, usec: 0 } }
    }

    /// An event with the given fields, stamped with the current time.
    ///
    /// Calls `evdev::InputEvent::new_now` and copies the four fields of the
    /// event it returns. The outside function stores its three arguments
    /// unchanged and fills the time from the system clock, so the contract
    /// speaks of kind, code and value only: nothing is promised of the
    /// timestamp.
    #[verifier::external_body]
    pub(crate) fn new_now(kind: u16, code: u16, value: i32) -> (ev: InputEvent)
        ensures
            ev.kind == kind,
            ev.code == code,
            ev.value == value,
    {
        let raw = evdev::InputEvent::new_now(kind, code, value);
        let time = raw.as_ref().time;
        InputEvent {
            kind: raw.event_type().0,
            code: raw.code(),
            value: raw.value(),
            timestamp: Timestamp { sec: time.tv_sec as i64, usec: time.tv_usec as i64 },
        }
    }

    pub open spec fn summary(self) -> EventSummary {
        if self.kind == EV_KEY {
            EventSummary::Key(self.code, self.value)
        } else if self.kind == EV_LED {
            EventSummary::Led(self.code, self.value)
        } else {
            EventSummary::Other(self.kind, self.code, self.value)
        }
    }

    /// Tells the event's kind apart.
    pub fn destructure(&self) -> (summary: EventSummary)
        ensures
            summary == self.summary(),
    {
        if self.kind == EV_KEY {
            EventSummary::Key(self.code, self.value)
        } else if self.kind == EV_LED {
            EventSummary::Led(self.code, self.value)
        } else {
            EventSummary::Other(self.kind, self.code, self.value)
        }
    }

    /// A key event for `code` with the raw value `value`.
    pub open spec fn is_key(self, code: u16, value: i32) -> bool {
        self.kind == EV_KEY && self.code == code && self.value == value
    }

    /// A key event whose value says "pressed".
    pub open spec fn is_key_press(self) -> bool {
        self.kind == EV_KEY && self.value == 1
    }

    /// A press of a key that is not itself a tracked modifier.
    pub open spec fn is_qualifying_press(self) -> bool {
        self.is_key_press() && !is_modifier_code(self.code)
    }

    /// Whether the event is a press of a key that is not a tracked
    /// modifier: the only events that start or cancel a repeat, or fire a
    /// hotkey.
    pub fn is_not_modifier(&self) -> (qualifying: bool)
        ensures
            qualifying == self.is_qualifying_press(),
    {
        match self.destructure() {
            EventSummary::Key(code, value) => value == KeyEventType::PRESSED && !(code
                == KEY_LEFTALT || code == KEY_RIGHTALT || code == KEY_LEFTCTRL || code
                == KEY_RIGHTCTRL || code == KEY_LEFTSHIFT || code == KEY_RIGHTSHIFT || code
                == KEY_LEFTMETA || code == KEY_RIGHTMETA || code == KEY_CAPSLOCK),
            _ => false,
        }
    }
}

} // verus!
