//! Numeric event types and codes of the Linux input subsystem that the
//! library's rules refer to.
use vstd::prelude::*;

verus! {

/// Event type of key and button state changes.
pub const EV_KEY: u16 = 0x01;

/// Event type of LED state changes.
pub const EV_LED: u16 = 0x11;

pub const KEY_LEFTCTRL: u16 = 29;

pub const KEY_GRAVE: u16 = 41;

pub const KEY_LEFTSHIFT: u16 = 42;

pub const KEY_Z: u16 = 44;

pub const KEY_RIGHTSHIFT: u16 = 54;

pub const KEY_LEFTALT: u16 = 56;

pub const KEY_CAPSLOCK: u16 = 58;

pub const KEY_F2: u16 = 60;

pub const KEY_RIGHTCTRL: u16 = 97;

pub const KEY_RIGHTALT: u16 = 100;

pub const KEY_POWER: u16 = 116;

pub const KEY_LEFTMETA: u16 = 125;

pub const KEY_RIGHTMETA: u16 = 126;

pub const KEY_COMPOSE: u16 = 127;

pub const KEY_WWW: u16 = 150;

pub const KEY_MAIL: u16 = 155;

pub const KEY_CONFIG: u16 = 171;

pub const KEY_SEARCH: u16 = 217;

pub const BTN_LEFT: u16 = 0x110;

/// The caps-lock indicator.
pub const LED_CAPSL: u16 = 0x01;

/// Highest relative-axis code the virtual device announces.
pub const REL_HWHEEL_HI_RES: u16 = 0x0c;

} // verus!
