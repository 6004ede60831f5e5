use macrokey::auto_repeat::{RepeatAction, State, STOP_ALL_KEY};
use macrokey::codes::{
    EV_KEY, EV_LED, KEY_CAPSLOCK, KEY_GRAVE, KEY_LEFTALT, KEY_LEFTCTRL, KEY_LEFTSHIFT,
    KEY_RIGHTALT, KEY_RIGHTCTRL, LED_CAPSL,
};
use macrokey::event::{InputEvent, Timestamp};
use macrokey::remap::remap;
use macrokey::repeat_timer::{repeat_event, stop_repeat_event};
use macrokey::virtual_device::{Emitter, EmitterAction, EmitterEvent};

const KEY_A: u16 = 30;
const KEY_B: u16 = 48;
const KEY_X: u16 = 45;

fn key(code: u16, value: i32, sec: i64) -> InputEvent {
    InputEvent { kind: EV_KEY, code, value, timestamp: Timestamp { sec, usec: 0 } }
}

fn led(value: i32) -> InputEvent {
    InputEvent { kind: EV_LED, code: LED_CAPSL, value, timestamp: Timestamp { sec: 0, usec: 0 } }
}

fn stops(actions: &Vec<RepeatAction>) -> Vec<InputEvent> {
    let mut out = Vec::new();
    for action in actions {
        if let RepeatAction::Stop(ev) = action {
            out.push(*ev);
        }
    }
    out.sort_by_key(|ev| ev.code);
    out
}

fn starts(actions: &Vec<RepeatAction>) -> Vec<InputEvent> {
    let mut out = Vec::new();
    for action in actions {
        if let RepeatAction::Start(ev) = action {
            out.push(*ev);
        }
    }
    out.sort_by_key(|ev| ev.code);
    out
}

fn repeating(codes: &[u16]) -> State {
    let mut state = State::new();
    assert!(state.process_input(key(KEY_LEFTCTRL, 1, 1)).is_empty());
    assert!(state.process_input(key(KEY_LEFTALT, 1, 2)).is_empty());
    for (i, code) in codes.iter().enumerate() {
        let press = key(*code, 1, 10 + i as i64);
        assert_eq!(state.process_input(press), vec![RepeatAction::Start(press)]);
        assert!(state.process_input(key(*code, 0, 10 + i as i64)).is_empty());
    }
    assert!(state.process_input(key(KEY_LEFTCTRL, 0, 90)).is_empty());
    assert!(state.process_input(key(KEY_LEFTALT, 0, 91)).is_empty());
    state
}

#[test]
fn new_state_has_nothing_held_and_no_entry() {
    let state = State::new();
    let m = state.modifiers();
    assert!(!m.alt && !m.ctrl && !m.shift && !m.meta && !m.capslock);
    assert_eq!(state.active_count(), 0);
    assert_eq!(state.paused_count(), 0);
    assert!(!state.all_modifiers_pressed());
    assert!(!state.any_modifier_pressed());
}

#[test]
fn ctrl_alt_then_key_starts_one_repeat() {
    let mut state = State::new();
    assert!(state.process_input(key(KEY_LEFTCTRL, 1, 1)).is_empty());
    assert!(state.process_input(key(KEY_LEFTALT, 1, 2)).is_empty());
    assert!(state.all_modifiers_pressed());
    let press = key(KEY_X, 1, 3);
    let actions = state.process_input(press);
    assert_eq!(actions, vec![RepeatAction::Start(press)]);
    assert_eq!(state.active_count(), 1);
    assert_eq!(state.active_event(KEY_X), Some(press));
    assert!(state.is_active_repeat_event(press));
    assert_eq!(state.paused_count(), 0);
}

#[test]
fn right_hand_modifiers_count_too() {
    let mut state = State::new();
    state.process_input(key(KEY_RIGHTCTRL, 1, 1));
    state.process_input(key(KEY_RIGHTALT, 2, 2));
    let press = key(KEY_X, 1, 3);
    assert_eq!(state.process_input(press), vec![RepeatAction::Start(press)]);
}

#[test]
fn repeat_runs_on_until_the_key_is_pressed_alone() {
    let mut state = State::new();
    state.process_input(key(KEY_LEFTCTRL, 1, 1));
    state.process_input(key(KEY_LEFTALT, 1, 2));
    let press = key(KEY_X, 1, 3);
    state.process_input(press);
    assert!(state.process_input(key(KEY_X, 0, 4)).is_empty());
    assert!(state.process_input(key(KEY_LEFTCTRL, 0, 5)).is_empty());
    assert!(state.process_input(key(KEY_LEFTALT, 0, 6)).is_empty());
    assert_eq!(state.active_event(KEY_X), Some(press));
    let actions = state.process_input(key(KEY_X, 1, 7));
    assert_eq!(actions, vec![RepeatAction::Stop(press)]);
    assert_eq!(state.active_count(), 0);
    assert_eq!(state.active_event(KEY_X), None);
}

#[test]
fn plain_press_and_release_start_nothing() {
    let mut state = State::new();
    assert!(state.process_input(key(KEY_X, 1, 1)).is_empty());
    assert!(state.process_input(key(KEY_X, 0, 2)).is_empty());
    assert_eq!(state.active_count(), 0);
    assert_eq!(state.paused_count(), 0);
}

#[test]
fn one_modifier_alone_starts_nothing() {
    let mut state = State::new();
    state.process_input(key(KEY_LEFTCTRL, 1, 1));
    assert!(state.process_input(key(KEY_X, 1, 2)).is_empty());
    state.process_input(key(KEY_LEFTCTRL, 0, 3));
    state.process_input(key(KEY_LEFTALT, 1, 4));
    assert!(state.process_input(key(KEY_X, 1, 5)).is_empty());
    state.process_input(key(KEY_LEFTSHIFT, 1, 6));
    assert!(state.process_input(key(KEY_A, 1, 7)).is_empty());
    assert_eq!(state.active_count(), 0);
    assert_eq!(state.paused_count(), 0);
}

#[test]
fn one_modifier_held_does_not_stop_a_repeat() {
    let mut state = repeating(&[KEY_X]);
    state.process_input(key(KEY_LEFTALT, 1, 100));
    assert!(state.process_input(key(KEY_X, 1, 101)).is_empty());
    assert_eq!(state.active_count(), 1);
}

#[test]
fn modifier_keys_never_repeat() {
    let mut state = State::new();
    state.process_input(key(KEY_LEFTCTRL, 1, 1));
    state.process_input(key(KEY_LEFTALT, 1, 2));
    assert!(state.process_input(key(KEY_LEFTSHIFT, 1, 3)).is_empty());
    assert!(state.process_input(key(KEY_CAPSLOCK, 1, 4)).is_empty());
    assert!(state.process_input(key(KEY_RIGHTCTRL, 1, 5)).is_empty());
    assert_eq!(state.active_count(), 0);
}

#[test]
fn key_repeat_and_release_values_start_nothing() {
    let mut state = State::new();
    state.process_input(key(KEY_LEFTCTRL, 1, 1));
    state.process_input(key(KEY_LEFTALT, 1, 2));
    assert!(state.process_input(key(KEY_X, 2, 3)).is_empty());
    assert!(state.process_input(key(KEY_X, 0, 4)).is_empty());
    assert!(state.process_input(key(KEY_X, 5, 5)).is_empty());
    assert_eq!(state.active_count(), 0);
}

#[test]
fn pressing_a_repeating_key_again_keeps_its_one_entry() {
    let mut state = State::new();
    state.process_input(key(KEY_LEFTCTRL, 1, 1));
    state.process_input(key(KEY_LEFTALT, 1, 2));
    let first = key(KEY_X, 1, 3);
    state.process_input(first);
    assert!(state.process_input(key(KEY_X, 1, 4)).is_empty());
    assert_eq!(state.active_count(), 1);
    assert_eq!(state.active_event(KEY_X), Some(first));
}

#[test]
fn start_repeat_event_is_idempotent() {
    let mut state = State::new();
    let first = key(KEY_X, 1, 3);
    assert!(state.start_repeat_event(first));
    assert!(!state.start_repeat_event(key(KEY_X, 1, 4)));
    assert!(!state.start_repeat_event(first));
    assert_eq!(state.active_count(), 1);
    assert_eq!(state.active_event(KEY_X), Some(first));
}

#[test]
fn stop_repeat_event_returns_the_entry_once() {
    let mut state = State::new();
    let first = key(KEY_X, 1, 3);
    state.start_repeat_event(first);
    assert_eq!(state.stop_repeat_event(KEY_X), Some(first));
    assert_eq!(state.stop_repeat_event(KEY_X), None);
    assert_eq!(state.stop_repeat_event(KEY_A), None);
    assert_eq!(state.active_count(), 0);
}

#[test]
fn each_cancellation_gives_one_release() {
    let mut state = repeating(&[KEY_A, KEY_B, KEY_X]);
    let actions = state.process_input(key(KEY_B, 1, 200));
    assert_eq!(actions.len(), 1);
    let cancelled = stops(&actions);
    assert_eq!(cancelled.len(), 1);
    assert_eq!(cancelled[0].code, KEY_B);
    let release = stop_repeat_event(cancelled[0]);
    assert_eq!((release.kind, release.code, release.value), (EV_KEY, KEY_B, 0));
    assert_eq!(state.active_count(), 2);
    assert!(state.process_input(key(KEY_B, 0, 201)).is_empty());
    assert!(state.process_input(key(KEY_B, 1, 202)).is_empty());
}

#[test]
fn stop_all_key_clears_every_entry_with_one_stop_each() {
    assert_eq!(STOP_ALL_KEY, KEY_GRAVE);
    let mut state = repeating(&[KEY_A, KEY_B, KEY_X]);
    let actions = state.process_input(key(KEY_GRAVE, 1, 200));
    assert_eq!(actions.len(), 3);
    assert!(starts(&actions).is_empty());
    let cancelled = stops(&actions);
    assert_eq!(
        cancelled.iter().map(|ev| ev.code).collect::<Vec<u16>>(),
        vec![KEY_A, KEY_X, KEY_B]
    );
    assert_eq!(cancelled[0], key(KEY_A, 1, 10));
    assert_eq!(cancelled[1], key(KEY_X, 1, 12));
    assert_eq!(cancelled[2], key(KEY_B, 1, 11));
    assert_eq!(state.active_count(), 0);
    assert!(state.process_input(key(KEY_GRAVE, 1, 201)).is_empty());
}

#[test]
fn stop_all_key_needs_a_press_and_no_modifier() {
    let mut state = repeating(&[KEY_A]);
    assert!(state.process_input(key(KEY_GRAVE, 0, 200)).is_empty());
    assert!(state.process_input(key(KEY_GRAVE, 2, 201)).is_empty());
    state.process_input(key(KEY_LEFTCTRL, 1, 202));
    assert!(state.process_input(key(KEY_GRAVE, 1, 203)).is_empty());
    assert_eq!(state.active_count(), 1);
}

#[test]
fn stop_all_key_that_repeats_itself_is_stopped_alone() {
    let mut state = repeating(&[KEY_A, KEY_GRAVE]);
    let actions = state.process_input(key(KEY_GRAVE, 1, 200));
    assert_eq!(actions, vec![RepeatAction::Stop(key(KEY_GRAVE, 1, 11))]);
    assert_eq!(state.active_count(), 1);
    let actions = state.process_input(key(KEY_GRAVE, 1, 201));
    assert_eq!(actions, vec![RepeatAction::Stop(key(KEY_A, 1, 10))]);
    assert_eq!(state.active_count(), 0);
}

#[test]
fn capslock_led_on_pauses_both_repeats() {
    let mut state = repeating(&[KEY_A, KEY_B]);
    let actions = state.process_input(led(1));
    assert_eq!(actions.len(), 2);
    assert!(starts(&actions).is_empty());
    let cancelled = stops(&actions);
    assert_eq!(cancelled, vec![key(KEY_A, 1, 10), key(KEY_B, 1, 11)]);
    let releases: Vec<(u16, u16, i32)> = cancelled
        .iter()
        .map(|ev| stop_repeat_event(*ev))
        .map(|ev| (ev.kind, ev.code, ev.value))
        .collect();
    assert_eq!(releases, vec![(EV_KEY, KEY_A, 0), (EV_KEY, KEY_B, 0)]);
    assert!(state.is_toggle_pressed());
    assert_eq!(state.active_count(), 0);
    assert_eq!(state.paused_count(), 2);
    assert_eq!(state.paused_event(KEY_A), Some(key(KEY_A, 1, 10)));
    assert_eq!(state.paused_event(KEY_B), Some(key(KEY_B, 1, 11)));
}

#[test]
fn pause_then_resume_restores_the_same_entries() {
    let mut state = repeating(&[KEY_A, KEY_B, KEY_X]);
    state.process_input(led(1));
    let actions = state.process_input(led(0));
    assert_eq!(actions.len(), 3);
    assert!(stops(&actions).is_empty());
    assert_eq!(starts(&actions), vec![key(KEY_A, 1, 10), key(KEY_X, 1, 12), key(KEY_B, 1, 11)]);
    assert!(!state.is_toggle_pressed());
    assert_eq!(state.active_count(), 3);
    assert_eq!(state.paused_count(), 0);
    assert_eq!(state.active_event(KEY_A), Some(key(KEY_A, 1, 10)));
    assert_eq!(state.active_event(KEY_B), Some(key(KEY_B, 1, 11)));
    assert_eq!(state.active_event(KEY_X), Some(key(KEY_X, 1, 12)));
}

#[test]
fn pause_works_with_modifiers_held() {
    let mut state = State::new();
    state.process_input(key(KEY_LEFTCTRL, 1, 1));
    state.process_input(key(KEY_LEFTALT, 1, 2));
    let press = key(KEY_X, 1, 3);
    state.process_input(press);
    assert_eq!(state.process_input(led(1)), vec![RepeatAction::Stop(press)]);
    assert_eq!(state.process_input(led(0)), vec![RepeatAction::Start(press)]);
}

#[test]
fn second_led_on_cancels_nothing_more() {
    let mut state = repeating(&[KEY_A]);
    assert_eq!(state.process_input(led(1)).len(), 1);
    assert!(state.process_input(led(1)).is_empty());
    assert_eq!(state.paused_count(), 1);
}

#[test]
fn led_off_with_nothing_paused_spawns_nothing() {
    let mut state = repeating(&[KEY_A]);
    assert!(state.process_input(led(0)).is_empty());
    assert_eq!(state.active_count(), 1);
}

#[test]
fn key_started_during_a_pause_keeps_its_newer_entry() {
    let mut state = repeating(&[KEY_A]);
    state.process_input(led(1));
    state.process_input(key(KEY_LEFTCTRL, 1, 100));
    state.process_input(key(KEY_LEFTALT, 1, 101));
    let newer = key(KEY_A, 1, 102);
    assert_eq!(state.process_input(newer), vec![RepeatAction::Start(newer)]);
    let other = key(KEY_B, 1, 103);
    assert_eq!(state.process_input(other), vec![RepeatAction::Start(other)]);
    assert!(state.process_input(led(0)).is_empty());
    assert_eq!(state.active_count(), 2);
    assert_eq!(state.paused_count(), 0);
    assert_eq!(state.active_event(KEY_A), Some(newer));
}

#[test]
fn other_leds_and_other_kinds_change_nothing() {
    let mut state = repeating(&[KEY_A]);
    let num_lock = InputEvent { kind: EV_LED, code: 0, value: 1, timestamp: Timestamp { sec: 0, usec: 0 } };
    assert!(state.process_input(num_lock).is_empty());
    let movement = InputEvent { kind: 2, code: KEY_A, value: 1, timestamp: Timestamp { sec: 0, usec: 0 } };
    assert!(state.process_input(movement).is_empty());
    let sync = InputEvent { kind: 0, code: 0, value: 0, timestamp: Timestamp { sec: 0, usec: 0 } };
    assert!(state.process_input(sync).is_empty());
    assert!(!state.is_toggle_pressed());
    assert_eq!(state.active_count(), 1);
    assert_eq!(state.paused_count(), 0);
}

#[test]
fn direct_operations_list_each_entry_once() {
    let mut state = State::new();
    let a = key(KEY_A, 1, 1);
    let b = key(KEY_B, 1, 2);
    state.start_repeat_event(a);
    state.start_repeat_event(b);
    let mut paused = state.pause_all_repeat_events();
    paused.sort_by_key(|ev| ev.code);
    assert_eq!(paused, vec![a, b]);
    assert!(state.pause_all_repeat_events().is_empty());
    assert_eq!(state.paused_count(), 2);
    let mut resumed = state.resume_all_repeat_events();
    resumed.sort_by_key(|ev| ev.code);
    assert_eq!(resumed, vec![a, b]);
    assert!(state.resume_all_repeat_events().is_empty());
    let mut stopped = state.stop_all_repeat_events();
    stopped.sort_by_key(|ev| ev.code);
    assert_eq!(stopped, vec![a, b]);
    assert!(state.stop_all_repeat_events().is_empty());
    assert_eq!(state.active_count(), 0);
}

#[test]
fn predicates_judge_the_event_alone() {
    let state = State::new();
    assert!(state.is_not_modifier(key(KEY_X, 1, 0)));
    assert!(!state.is_not_modifier(key(KEY_X, 0, 0)));
    assert!(!state.is_not_modifier(key(KEY_LEFTALT, 1, 0)));
    assert!(!state.is_not_modifier(led(1)));
    assert!(state.is_stop_all_key(key(KEY_GRAVE, 0, 0)));
    assert!(!state.is_stop_all_key(key(KEY_X, 1, 0)));
    assert!(state.is_toggle_pause(led(0)));
    assert!(state.is_toggle_pause(led(1)));
    assert!(!state.is_toggle_pause(key(LED_CAPSL, 1, 0)));
    assert!(!state.is_toggle_pause(key(KEY_CAPSLOCK, 1, 0)));
}

#[test]
fn ctrl_alt_x_repeats_until_stopped() {
    let mut state = State::new();
    assert!(state.process_input(key(KEY_LEFTCTRL, 1, 1)).is_empty());
    assert!(state.process_input(key(KEY_LEFTALT, 1, 2)).is_empty());
    let press = key(KEY_X, 1, 3);
    let actions = state.process_input(press);
    assert_eq!(actions, vec![RepeatAction::Start(press)]);
    assert_eq!(state.active_count(), 1);

    let mut timer = repeat_event(press);
    let mut emitter = Emitter::new();
    let mut seen = Vec::new();
    for _ in 0..6 {
        let beat = timer.next();
        match emitter.step(EmitterEvent::Received(beat.event)) {
            EmitterAction::Emit(ev) => seen.push((ev.code, ev.value, beat.wait_ms)),
            other => panic!("{:?}", other),
        }
    }
    assert_eq!(
        seen,
        vec![
            (KEY_X, 1, 100),
            (KEY_X, 0, 350),
            (KEY_X, 1, 100),
            (KEY_X, 0, 350),
            (KEY_X, 1, 100),
            (KEY_X, 0, 350)
        ]
    );

    assert!(state.process_input(key(KEY_X, 0, 4)).is_empty());
    assert!(state.process_input(key(KEY_LEFTCTRL, 0, 5)).is_empty());
    assert!(state.process_input(key(KEY_LEFTALT, 0, 6)).is_empty());
    assert_eq!(state.active_count(), 1);
    let actions = state.process_input(key(KEY_GRAVE, 1, 7));
    assert_eq!(actions, vec![RepeatAction::Stop(press)]);
    assert_eq!(state.active_count(), 0);
    let release = stop_repeat_event(press);
    assert_eq!(
        emitter.step(EmitterEvent::Received(release)),
        EmitterAction::Emit(release)
    );
    assert_eq!((release.code, release.value), (KEY_X, 0));
}

#[test]
fn plain_key_passes_through_once_down_once_up() {
    let mut state = State::new();
    let mut emitter = Emitter::new();
    let down = key(KEY_X, 1, 1);
    let up = key(KEY_X, 0, 2);
    let mut written = Vec::new();
    for ev in [down, up] {
        assert!(state.process_input(ev).is_empty());
        match emitter.step(EmitterEvent::Received(remap(ev))) {
            EmitterAction::Emit(out) => written.push(out),
            other => panic!("{:?}", other),
        }
    }
    assert_eq!(written, vec![down, up]);
    assert_eq!(state.active_count(), 0);
    assert_eq!(state.paused_count(), 0);
}

#[test]
fn events_of_other_kinds_leave_the_machine_alone() {
    let mut state = repeating(&[KEY_A]);
    state.process_input(led(1));
    for kind in [0u16, 2, 3, 4, 5, 0x12, 0x14] {
        for value in [0, 1, 2] {
            let ev = InputEvent {
                kind,
                code: KEY_GRAVE,
                value,
                timestamp: Timestamp { sec: 0, usec: 0 },
            };
            assert!(state.process_input(ev).is_empty());
        }
    }
    assert_eq!(state.active_count(), 0);
    assert_eq!(state.paused_count(), 1);
    assert!(state.is_toggle_pressed());
}
