//! The life of one capture task: open a device, claim it if asked to,
//! then forward its events until reading fails.
//!
//! The task around this machine does the waiting. It performs the action
//! it is handed, reports what came of it, and is handed the next action.
//! A device that cannot be opened ends its task quietly. A claim that
//! fails is reported once and the device is listened to all the same.
use crate::codes::{EV_KEY, EV_LED};
use crate::event::InputEvent;
use crate::key_event_type::KeyEventType;
use vstd::prelude::*;

verus! {

/// Where a capture task stands.
#[derive(Clone, Copy, Debug, PartialEq, Eq, Structural)]
pub enum Capture {
    /// The device is being opened; `grab` says whether to claim it then.
    Opening { grab: bool },
    /// Exclusive delivery has been requested.
    Grabbing,
    /// Events are being read; `exclusive` says whether the claim holds.
    Streaming { exclusive: bool },
    /// The task is over.
    Ended,
}

/// What the task reports.
#[derive(Clone, Copy, Debug, PartialEq, Eq, Structural)]
pub enum CaptureEvent {
    Opened,
    /// No device answers the description, or it cannot be opened.
    OpenFailed,
    Grabbed,
    /// Another listener holds the device exclusively, or the claim failed
    /// otherwise.
    GrabFailed,
    /// The device delivered this event.
    Read(InputEvent),
    /// Reading failed: an error, or the device is gone.
    ReadFailed,
}

/// What the task is to do next.
#[derive(Clone, Copy, Debug, PartialEq, Eq, Structural)]
pub enum CaptureAction {
    /// Request exclusive delivery.
    Grab,
    /// Read the next event.
    Next,
    /// Note that the claim failed, then read the next event.
    WarnAndNext,
    /// Hand this event on, then read the next one.
    Forward(InputEvent),
    /// Leave the loop and release the device.
    Exit,
}

impl Capture {
    /// The state and the action that follow a report.
    pub open spec fn after(self, event: CaptureEvent) -> (Capture, CaptureAction) {
        match (self, event) {
            (Capture::Opening { grab }, CaptureEvent::Opened) => if grab {
                (Capture::Grabbing, CaptureAction::Grab)
            } else {
                (Capture::Streaming { exclusive: false }, CaptureAction::Next)
            },
            (Capture::Grabbing, CaptureEvent::Grabbed) => (
                Capture::Streaming { exclusive: true },
                CaptureAction::Next,
            ),
            (Capture::Grabbing, CaptureEvent::GrabFailed) => (
                Capture::Streaming { exclusive: false },
                CaptureAction::WarnAndNext,
            ),
            (Capture::Streaming { exclusive }, CaptureEvent::Read(ev)) => (
                Capture::Streaming { exclusive },
                CaptureAction::Forward(ev),
            ),
            _ => (Capture::Ended, CaptureAction::Exit),
        }
    }

    /// A task that has yet to open its device.
    pub fn new(grab: bool) -> (capture: Capture)
        ensures
            capture == (Capture::Opening { grab }),
    {
        Capture::Opening { grab }
    }

    /// Takes one report and returns what to do next. A report that the
    /// state does not wait for ends the task.
    pub fn step(&mut self, event: CaptureEvent) -> (action: CaptureAction)
        ensures
            (*final(self), action) == old(self).after(event),
    {
        let (next, action) = match (*self, event) {
            (Capture::Opening { grab }, CaptureEvent::Opened) => if grab {
                (Capture::Grabbing, CaptureAction::Grab)
            } else {
                (Capture::Streaming { exclusive: false }, CaptureAction::Next)
            },
            (Capture::Grabbing, CaptureEvent::Grabbed) => (
                Capture::Streaming { exclusive: true },
                CaptureAction::Next,
            ),
            (Capture::Grabbing, CaptureEvent::GrabFailed) => (
                Capture::Streaming { exclusive: false },
                CaptureAction::WarnAndNext,
            ),
            (Capture::Streaming { exclusive }, CaptureEvent::Read(ev)) => (
                Capture::Streaming { exclusive },
                CaptureAction::Forward(ev),
            ),
            _ => (Capture::Ended, CaptureAction::Exit),
        };
        *self = next;
        action
    }

    pub fn is_ended(&self) -> (ended: bool)
        ensures
            ended == (*self == Capture::Ended),
    {
        match self {
            Capture::Ended => true,
            _ => false,
        }
    }
}

/// Whether the repeat machine and the hotkeys are to see `ev`: key and
/// indicator events only. Movement, synchronisation and the rest are
/// filtered out before they reach the shared state.
pub fn is_monitored(ev: &InputEvent) -> (monitored: bool)
    ensures
        monitored == (ev.kind == EV_KEY || ev.kind == EV_LED),
{
    !(ev.kind != EV_KEY && ev.kind != EV_LED)
}

/// Whether the event log shows `ev`: events whose value says "pressed".
pub fn is_logged(ev: &InputEvent) -> (logged: bool)
    ensures
        logged == (ev.value == 1),
{
    ev.value == KeyEventType::PRESSED
}

/// A claim that fails does not end the task, and neither does anything but
/// a failure to open or to read: from any state that is reading or about
/// to, only those two reports lead to the end.
pub proof fn lemma_capture_ends_on_failure_only(state: Capture, event: CaptureEvent)
    requires
        state != Capture::Ended,
        state.after(event).0 == Capture::Ended,
    ensures
        event == CaptureEvent::OpenFailed || event == CaptureEvent::ReadFailed || !state.awaits(
            event,
        ),
{
}

impl Capture {
    /// Whether the state waits for this report.
    pub open spec fn awaits(self, event: CaptureEvent) -> bool {
        match self {
            Capture::Opening { .. } => event == CaptureEvent::Opened || event
                == CaptureEvent::OpenFailed,
            Capture::Grabbing => event == CaptureEvent::Grabbed || event
                == CaptureEvent::GrabFailed,
            Capture::Streaming { .. } => event is Read || event == CaptureEvent::ReadFailed,
            Capture::Ended => false,
        }
    }
}

} // verus!
