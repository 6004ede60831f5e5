use macrokey::codes::{
    BTN_LEFT, EV_KEY, EV_LED, KEY_CAPSLOCK, KEY_COMPOSE, KEY_CONFIG, KEY_F2, KEY_GRAVE,
    KEY_LEFTALT, KEY_LEFTCTRL, KEY_LEFTMETA, KEY_LEFTSHIFT, KEY_MAIL, KEY_POWER, KEY_RIGHTALT,
    KEY_RIGHTCTRL, KEY_RIGHTMETA, KEY_RIGHTSHIFT, KEY_SEARCH, KEY_WWW, KEY_Z, LED_CAPSL,
    REL_HWHEEL_HI_RES,
};
use macrokey::event::{EventSummary, InputEvent, Timestamp};
use macrokey::key_event_type::KeyEventType;
use macrokey::modifiers::ModifierState;

fn plain(kind: u16, code: u16, value: i32) -> InputEvent {
    InputEvent { kind, code, value, timestamp: Timestamp { sec: 7, usec: 9 } }
}

#[test]
fn codes_are_those_of_the_evdev_crate() {
    assert_eq!(EV_KEY, evdev::EventType::KEY.0);
    assert_eq!(EV_LED, evdev::EventType::LED.0);
    assert_eq!(LED_CAPSL, evdev::LedCode::LED_CAPSL.0);
    assert_eq!(KEY_LEFTCTRL, evdev::KeyCode::KEY_LEFTCTRL.0);
    assert_eq!(KEY_RIGHTCTRL, evdev::KeyCode::KEY_RIGHTCTRL.0);
    assert_eq!(KEY_LEFTALT, evdev::KeyCode::KEY_LEFTALT.0);
    assert_eq!(KEY_RIGHTALT, evdev::KeyCode::KEY_RIGHTALT.0);
    assert_eq!(KEY_LEFTSHIFT, evdev::KeyCode::KEY_LEFTSHIFT.0);
    assert_eq!(KEY_RIGHTSHIFT, evdev::KeyCode::KEY_RIGHTSHIFT.0);
    assert_eq!(KEY_LEFTMETA, evdev::KeyCode::KEY_LEFTMETA.0);
    assert_eq!(KEY_RIGHTMETA, evdev::KeyCode::KEY_RIGHTMETA.0);
    assert_eq!(KEY_CAPSLOCK, evdev::KeyCode::KEY_CAPSLOCK.0);
    assert_eq!(KEY_GRAVE, evdev::KeyCode::KEY_GRAVE.0);
    assert_eq!(KEY_Z, evdev::KeyCode::KEY_Z.0);
    assert_eq!(KEY_POWER, evdev::KeyCode::KEY_POWER.0);
    assert_eq!(KEY_F2, evdev::KeyCode::KEY_F2.0);
    assert_eq!(KEY_COMPOSE, evdev::KeyCode::KEY_COMPOSE.0);
    assert_eq!(KEY_CONFIG, evdev::KeyCode::KEY_CONFIG.0);
    assert_eq!(KEY_MAIL, evdev::KeyCode::KEY_MAIL.0);
    assert_eq!(KEY_WWW, evdev::KeyCode::KEY_WWW.0);
    assert_eq!(KEY_SEARCH, evdev::KeyCode::KEY_SEARCH.0);
    assert_eq!(BTN_LEFT, evdev::KeyCode::BTN_LEFT.0);
    assert_eq!(REL_HWHEEL_HI_RES, evdev::RelativeAxisCode::REL_HWHEEL_HI_RES.0);
}

#[test]
fn key_event_type_value_and_from_value_agree() {
    for v in [-3, -1, 0, 1, 2, 3, 100, i32::MAX, i32::MIN] {
        assert_eq!(KeyEventType::from_value(v).value(), v);
    }
    assert_eq!(KeyEventType::RELEASED.value(), 0);
    assert_eq!(KeyEventType::PRESSED.value(), 1);
    assert_eq!(KeyEventType::REPEAT.value(), 2);
    assert_eq!(KeyEventType::UNKNOWN(9).value(), 9);
    assert_eq!(KeyEventType::UNKNOWN(1).value(), 1);
}

#[test]
fn key_event_type_compares_with_raw_values() {
    assert!(KeyEventType::PRESSED == 1);
    assert!(1 == KeyEventType::PRESSED);
    assert!(KeyEventType::RELEASED == 0);
    assert!(2 == KeyEventType::REPEAT);
    assert!(KeyEventType::UNKNOWN(1) == 1);
    assert!(!(KeyEventType::PRESSED == 0));
    assert!(!(5 == KeyEventType::REPEAT));
    let raw: i32 = KeyEventType::REPEAT.into();
    assert_eq!(raw, 2);
    let raw: i32 = KeyEventType::UNKNOWN(-4).into();
    assert_eq!(raw, -4);
}

#[test]
fn new_event_has_a_zero_timestamp() {
    let ev = InputEvent::new(EV_KEY, KEY_Z, 1);
    assert_eq!(
        ev,
        InputEvent { kind: EV_KEY, code: KEY_Z, value: 1, timestamp: Timestamp { sec: 0, usec: 0 } }
    );
}

#[test]
fn destructure_tells_key_led_and_other_apart() {
    assert_eq!(plain(EV_KEY, KEY_Z, 2).destructure(), EventSummary::Key(KEY_Z, 2));
    assert_eq!(plain(EV_LED, LED_CAPSL, 1).destructure(), EventSummary::Led(LED_CAPSL, 1));
    assert_eq!(plain(2, 8, -1).destructure(), EventSummary::Other(2, 8, -1));
    assert_eq!(plain(0, 0, 0).destructure(), EventSummary::Other(0, 0, 0));
}

#[test]
fn is_not_modifier_wants_a_press_of_a_plain_key() {
    assert!(plain(EV_KEY, KEY_Z, 1).is_not_modifier());
    assert!(plain(EV_KEY, KEY_GRAVE, 1).is_not_modifier());
    assert!(!plain(EV_KEY, KEY_Z, 0).is_not_modifier());
    assert!(!plain(EV_KEY, KEY_Z, 2).is_not_modifier());
    assert!(!plain(EV_LED, KEY_Z, 1).is_not_modifier());
    for code in [
        KEY_LEFTALT, KEY_RIGHTALT, KEY_LEFTCTRL, KEY_RIGHTCTRL, KEY_LEFTSHIFT, KEY_RIGHTSHIFT,
        KEY_LEFTMETA, KEY_RIGHTMETA, KEY_CAPSLOCK,
    ] {
        assert!(!plain(EV_KEY, code, 1).is_not_modifier());
    }
}

#[test]
fn modifiers_follow_press_repeat_and_release() {
    let mut m = ModifierState::new();
    assert_eq!(
        m,
        ModifierState { alt: false, ctrl: false, shift: false, meta: false, capslock: false }
    );
    m.update_state(&plain(EV_KEY, KEY_LEFTALT, 1));
    assert!(m.alt && !m.ctrl && !m.shift && !m.meta && !m.capslock);
    m.update_state(&plain(EV_KEY, KEY_RIGHTCTRL, 2));
    assert!(m.alt && m.ctrl);
    m.update_state(&plain(EV_KEY, KEY_RIGHTALT, 0));
    assert!(!m.alt && m.ctrl);
    m.update_state(&plain(EV_KEY, KEY_LEFTSHIFT, 1));
    m.update_state(&plain(EV_KEY, KEY_RIGHTMETA, 1));
    assert!(m.shift && m.meta);
    m.update_state(&plain(EV_KEY, KEY_RIGHTSHIFT, 3));
    assert!(!m.shift);
    m.update_state(&plain(EV_KEY, KEY_LEFTMETA, 0));
    assert!(!m.meta && m.ctrl);
}

#[test]
fn capslock_follows_the_indicator_not_the_key() {
    let mut m = ModifierState::new();
    m.update_state(&plain(EV_KEY, KEY_CAPSLOCK, 1));
    assert!(!m.capslock);
    m.update_state(&plain(EV_LED, LED_CAPSL, 1));
    assert!(m.capslock);
    m.update_state(&plain(EV_LED, 0, 0));
    assert!(m.capslock);
    m.update_state(&plain(EV_LED, LED_CAPSL, 2));
    assert!(!m.capslock);
    m.update_state(&plain(EV_LED, LED_CAPSL, 1));
    m.update_state(&plain(EV_LED, LED_CAPSL, 0));
    assert!(!m.capslock);
}

#[test]
fn one_event_changes_at_most_one_modifier() {
    let events = [
        plain(EV_KEY, KEY_LEFTALT, 1),
        plain(EV_KEY, KEY_LEFTCTRL, 1),
        plain(EV_LED, LED_CAPSL, 1),
        plain(EV_KEY, KEY_Z, 1),
        plain(EV_KEY, KEY_LEFTSHIFT, 2),
        plain(3, KEY_LEFTALT, 0),
        plain(EV_KEY, KEY_LEFTALT, 0),
    ];
    let mut m = ModifierState::new();
    for ev in events.iter() {
        let before = m;
        m.update_state(ev);
        let changed = [
            before.alt != m.alt,
            before.ctrl != m.ctrl,
            before.shift != m.shift,
            before.meta != m.meta,
            before.capslock != m.capslock,
        ];
        assert!(changed.iter().filter(|c| **c).count() <= 1);
    }
    assert!(!m.alt && m.ctrl && m.shift && m.capslock);
}
