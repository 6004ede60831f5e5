//! The cadence of a repeat timer and the release that answers its
//! cancellation.
//!
//! A timer presses its key, waits, releases it, waits, and starts over
//! until it is cancelled. Cancellation comes from outside and may fall
//! between any two waits, so the timer cannot be relied on to leave its
//! key released: whoever cancels it emits one release of its own.
use crate::codes::EV_KEY;
use crate::event::InputEvent;
use crate::key_event_type::KeyEventType;
use vstd::prelude::*;

verus! {

/// How long a repeated key stays down, in milliseconds.
pub const PRESSED_TIME: u64 = 100;

/// How long a repeated key stays up, in milliseconds.
pub const RELEASED_TIME: u64 = 350;

/// One beat of a timer: an event to emit, and the time to wait after it.
#[derive(Clone, Copy, Debug, PartialEq, Eq, Structural)]
pub struct Beat {
    pub event: InputEvent,
    pub wait_ms: u64,
}

/// A repeat timer for one key.
#[derive(Clone, Copy, Debug)]
pub struct RepeatTimer {
    press: InputEvent,
    release: InputEvent,
    down: bool,
}

/// The mathematical state of a timer: its key, and whether the key is down.
pub struct TimerView {
    pub code: u16,
    pub down: bool,
}

impl View for RepeatTimer {
    type V = TimerView;

    closed spec fn view(&self) -> TimerView {
        TimerView { code: self.press.code, down: self.down }
    }
}

impl RepeatTimer {
    #[verifier::type_invariant]
    spec fn one_key(&self) -> bool {
        &&& self.press.is_key(self.press.code, 1)
        &&& self.release.is_key(self.press.code, 0)
    }

    /// The next beat: the press and the short wait while the key is up, the
    /// release and the long wait while it is down.
    pub fn next(&mut self) -> (beat: Beat)
        ensures
            final(self)@.code == old(self)@.code,
            final(self)@.down == !old(self)@.down,
            !old(self)@.down ==> beat.event.is_key(old(self)@.code, 1) && beat.wait_ms
                == PRESSED_TIME,
            old(self)@.down ==> beat.event.is_key(old(self)@.code, 0) && beat.wait_ms
                == RELEASED_TIME,
    {
        proof {
            use_type_invariant(&*self);
        }
        if self.down {
            self.down = false;
            Beat { event: self.release, wait_ms: RELEASED_TIME }
        } else {
            self.down = true;
            Beat { event: self.press, wait_ms: PRESSED_TIME }
        }
    }
}

/// A timer for the key of `ie`, with its key up: its first beat is a press.
pub fn repeat_event(ie: InputEvent) -> (timer: RepeatTimer)
    ensures
        timer@ == (TimerView { code: ie.code, down: false }),
{
    let press = InputEvent::new_now(EV_KEY, ie.code, KeyEventType::PRESSED.into());
    let release = InputEvent::new_now(EV_KEY, ie.code, KeyEventType::RELEASED.into());
    RepeatTimer { press, release, down: false }
}

/// The release that answers the cancellation of the timer that `ie`
/// triggered, whichever beat the timer was in.
pub fn stop_repeat_event(ie: InputEvent) -> (release: InputEvent)
    ensures
        release.is_key(ie.code, 0),
{
    InputEvent::new_now(EV_KEY, ie.code, KeyEventType::RELEASED.into())
}

} // verus!
