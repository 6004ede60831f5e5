//! The keyboard whose keys are remapped on the way to the virtual device.
use crate::codes::{EV_KEY, KEY_LEFTMETA, KEY_Z};
use crate::discovery::{get_combined_properties, get_device_by_predicate, DeviceError};
use crate::event::{EventSummary, InputEvent};
use crate::event_device::EventDevice;
use crate::text::{any_same_text, same_text};
use vstd::prelude::*;

verus! {

/// The name of the keyboard to remap.
pub const DEVICE_NAME: &'static str = "Lenovo ThinkPad Compact USB Keyboard with TrackPoint";

/// The property that marks the keyboard's pointing stick, which shares
/// its name.
pub const POINTER: &'static str = "POINTER";

/// Whether `device` is the keyboard to remap: it bears the keyboard's name
/// and is not a pointer.
pub open spec fn is_source(device: EventDevice) -> bool {
    &&& device.name_text() == DEVICE_NAME@
    &&& !exists|i: int|
        0 <= i < (device.properties@ + device.supported_events@).len() && #[trigger] (
        device.properties@ + device.supported_events@)[i]@ == POINTER@
}

/// The event that `ev` is sent on as: `Z` becomes the left meta key, value
/// unchanged, and every other event is itself.
pub open spec fn sends(ev: InputEvent, sent: InputEvent) -> bool {
    match ev.summary() {
        EventSummary::Key(code, value) => {
            if code == KEY_Z {
                sent.is_key(KEY_LEFTMETA, value)
            } else {
                sent == ev
            }
        },
        _ => sent == ev,
    }
}

/// Whether `device` is the keyboard to remap.
pub fn is_remap_source(device: &EventDevice) -> (source: bool)
    ensures
        source == is_source(*device),
{
    let combined = get_combined_properties(device);
    same_text(device.name_or_empty(), DEVICE_NAME) && !any_same_text(&combined, POINTER)
}

/// The first of `devices` that is the keyboard to remap.
pub fn find_device(devices: &Vec<EventDevice>) -> (found: Result<usize, DeviceError>)
    ensures
        match found {
            Ok(at) => at < devices@.len() && is_source(devices@[at as int]) && forall|j: int|
                0 <= j < at ==> !is_source(devices@[j]),
            Err(e) => e == DeviceError::NotFound && forall|j: int|
                0 <= j < devices@.len() ==> !is_source(devices@[j]),
        },
{
    let predicate = |device: &EventDevice| -> (source: bool)
        ensures
            source == is_source(*device),
        {
            let source = is_remap_source(device);
            source
        };
    get_device_by_predicate(devices, predicate)
}

/// The event to send to the virtual device for `ev`. An event made for a
/// remapped key is stamped with the current time.
pub fn remap(ev: InputEvent) -> (sent: InputEvent)
    ensures
        sends(ev, sent),
{
    match ev.destructure() {
        EventSummary::Key(code, value) => {
            if code == KEY_Z {
                InputEvent::new_now(EV_KEY, KEY_LEFTMETA, value)
            } else {
                ev
            }
        },
        _ => ev,
    }
}

} // verus!
