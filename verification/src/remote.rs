//! The remote control: one piece of hardware that shows up as several
//! devices, whose keys are remapped on the way to the virtual device.
use crate::codes::{
    BTN_LEFT, EV_KEY, KEY_COMPOSE, KEY_CONFIG, KEY_F2, KEY_LEFTMETA, KEY_MAIL, KEY_POWER,
    KEY_SEARCH, KEY_WWW,
};
use crate::event::{EventSummary, InputEvent};
use crate::key_event_type::KeyEventType;
use crate::text::{contains, occurs_in};
use vstd::prelude::*;

verus! {

/// The devices that the remote control shows up as.
#[allow(non_camel_case_types)]
#[derive(Clone, Copy, Debug, PartialEq, Eq, Structural)]
pub enum ID {
    Keyboard,
    Mouse,
    Consumer,
    System,
}

/// What to do with an event of the remote control.
#[derive(Clone, Copy, Debug, PartialEq, Eq, Structural)]
pub enum RemoteAction {
    /// Send this event to the virtual device.
    Send(InputEvent),
    /// Switch the display on or off.
    ToggleDisplay,
    /// The event is dropped.
    Drop,
}

/// The command that asks the display for its power status.
pub const CEC_QUERY: &'static str = "echo 'pow 0' | cec-client -s -d 1";

/// The command that puts the display on standby.
pub const CEC_STANDBY: &'static str = "echo 'standby 0' | cec-client -s";

/// The command that switches the display on.
pub const CEC_ON: &'static str = "echo 'on 0' | cec-client -s";

/// The words in the answer to `CEC_QUERY` that say the display is on.
pub const CEC_POWER_ON: &'static str = "power status: on";

/// The code that a key of the remote control is sent as, where it is
/// remapped.
pub open spec fn remapped(code: u16) -> Option<u16> {
    if code == KEY_F2 {
        Some(KEY_LEFTMETA)
    } else if code == KEY_COMPOSE {
        Some(BTN_LEFT)
    } else if code == KEY_CONFIG {
        Some(KEY_WWW)
    } else if code == KEY_MAIL {
        Some(KEY_SEARCH)
    } else {
        None
    }
}

/// `action` is what becomes of `ev`: a press of the power button toggles
/// the display and its other events are dropped, a remapped key is sent on
/// as a key event of its new code with the value unchanged, and every
/// other event is sent on as it is.
pub open spec fn decides(ev: InputEvent, action: RemoteAction) -> bool {
    match ev.summary() {
        EventSummary::Key(code, value) => {
            if code == KEY_POWER {
                action == if value == 1 {
                    RemoteAction::ToggleDisplay
                } else {
                    RemoteAction::Drop
                }
            } else if remapped(code) is Some {
                action matches RemoteAction::Send(made) && made.is_key(remapped(code)->0, value)
            } else {
                action == RemoteAction::Send(ev)
            }
        },
        _ => action == RemoteAction::Send(ev),
    }
}

/// The name under which the kernel lists the device `id`.
pub fn device_name(id: ID) -> (name: &'static str)
    ensures
        name@ == match id {
            ID::System => "Usb Audio Device System Control"@,
            ID::Consumer => "Usb Audio Device Consumer Control"@,
            ID::Keyboard => "Usb Audio Device"@,
            ID::Mouse => "Usb Audio Device Mouse"@,
        },
{
    match id {
        ID::System => "Usb Audio Device System Control",
        ID::Consumer => "Usb Audio Device Consumer Control",
        ID::Keyboard => "Usb Audio Device",
        ID::Mouse => "Usb Audio Device Mouse",
    }
}

/// Decides what becomes of one event of the remote control. An event
/// made for a remapped key is stamped with the current time.
pub fn process_input(ev: InputEvent) -> (action: RemoteAction)
    ensures
        decides(ev, action),
{
    match ev.destructure() {
        EventSummary::Key(code, value) => {
            if code == KEY_POWER {
                if value == KeyEventType::PRESSED {
                    RemoteAction::ToggleDisplay
                } else {
                    RemoteAction::Drop
                }
            } else if code == KEY_F2 {
                RemoteAction::Send(InputEvent::new_now(EV_KEY, KEY_LEFTMETA, ev.value))
            } else if code == KEY_COMPOSE {
                RemoteAction::Send(InputEvent::new_now(EV_KEY, BTN_LEFT, ev.value))
            } else if code == KEY_CONFIG {
                RemoteAction::Send(InputEvent::new_now(EV_KEY, KEY_WWW, ev.value))
            } else if code == KEY_MAIL {
                RemoteAction::Send(InputEvent::new_now(EV_KEY, KEY_SEARCH, ev.value))
            } else {
                RemoteAction::Send(ev)
            }
        },
        _ => RemoteAction::Send(ev),
    }
}

/// The command that toggles the display, given the display's answer to
/// `CEC_QUERY`: standby if the answer says it is on, on otherwise.
pub fn toggle_cec_display(report: &str) -> (command: &'static str)
    ensures
        command@ == if occurs_in(report@, CEC_POWER_ON@) {
            CEC_STANDBY@
        } else {
            CEC_ON@
        },
{
    if contains(report, CEC_POWER_ON) {
        CEC_STANDBY
    } else {
        CEC_ON
    }
}

} // verus!
