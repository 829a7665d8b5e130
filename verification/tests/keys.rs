use evdev::{EventType, KeyCode, LedCode, RelativeAxisCode};
use mousekeys::events::{
    button_click_events, button_down_events, button_up_events, movement_events, InputEvent, EV_KEY,
    EV_REL, EV_SYN, REL_X, REL_Y,
};
use mousekeys::keys;

#[test]
fn codes_are_those_of_the_kernel() {
    assert_eq!(keys::KEY_LEFTCTRL, KeyCode::KEY_LEFTCTRL.0);
    assert_eq!(keys::KEY_RIGHTCTRL, KeyCode::KEY_RIGHTCTRL.0);
    assert_eq!(keys::KEY_LEFTSHIFT, KeyCode::KEY_LEFTSHIFT.0);
    assert_eq!(keys::KEY_RIGHTSHIFT, KeyCode::KEY_RIGHTSHIFT.0);
    assert_eq!(keys::KEY_A, KeyCode::KEY_A.0);
    assert_eq!(keys::KEY_NUMLOCK, KeyCode::KEY_NUMLOCK.0);
    assert_eq!(keys::KEY_KP0, KeyCode::KEY_KP0.0);
    assert_eq!(keys::KEY_KP1, KeyCode::KEY_KP1.0);
    assert_eq!(keys::KEY_KP2, KeyCode::KEY_KP2.0);
    assert_eq!(keys::KEY_KP3, KeyCode::KEY_KP3.0);
    assert_eq!(keys::KEY_KP4, KeyCode::KEY_KP4.0);
    assert_eq!(keys::KEY_KP5, KeyCode::KEY_KP5.0);
    assert_eq!(keys::KEY_KP6, KeyCode::KEY_KP6.0);
    assert_eq!(keys::KEY_KP7, KeyCode::KEY_KP7.0);
    assert_eq!(keys::KEY_KP8, KeyCode::KEY_KP8.0);
    assert_eq!(keys::KEY_KP9, KeyCode::KEY_KP9.0);
    assert_eq!(keys::KEY_KPDOT, KeyCode::KEY_KPDOT.0);
    assert_eq!(keys::KEY_KPPLUS, KeyCode::KEY_KPPLUS.0);
    assert_eq!(keys::KEY_KPMINUS, KeyCode::KEY_KPMINUS.0);
    assert_eq!(keys::KEY_KPASTERISK, KeyCode::KEY_KPASTERISK.0);
    assert_eq!(keys::KEY_KPSLASH, KeyCode::KEY_KPSLASH.0);
    assert_eq!(keys::BTN_LEFT, KeyCode::BTN_LEFT.0);
    assert_eq!(keys::BTN_MIDDLE, KeyCode::BTN_MIDDLE.0);
    assert_eq!(keys::BTN_RIGHT, KeyCode::BTN_RIGHT.0);
    assert_eq!(keys::LED_NUML, LedCode::LED_NUML.0);
    assert_eq!(EV_SYN, EventType::SYNCHRONIZATION.0);
    assert_eq!(EV_KEY, EventType::KEY.0);
    assert_eq!(EV_REL, EventType::RELATIVE.0);
    assert_eq!(REL_X, RelativeAxisCode::REL_X.0);
    assert_eq!(REL_Y, RelativeAxisCode::REL_Y.0);
}

#[test]
fn fifteen_keys_steer_the_mouse_and_eight_move_it() {
    let numpad = keys::numpad_keys();
    let steering: Vec<u16> = (0..=u16::MAX).filter(|&c| keys::is_mouse_key(c)).collect();
    let moving: Vec<u16> = (0..=u16::MAX).filter(|&c| keys::is_movement_key(c)).collect();
    assert_eq!(numpad.len(), 15);
    assert_eq!(steering.len(), 15);
    assert!(numpad.iter().all(|c| steering.contains(c)));
    assert_eq!(moving.len(), 8);
    assert!(moving.iter().all(|c| steering.contains(c)));
    assert!(!moving.contains(&keys::KEY_KP5));
}

#[test]
fn batches() {
    let down = InputEvent::new(1, 272, 1);
    let up = InputEvent::new(1, 272, 0);
    let sync = InputEvent::new(0, 0, 0);
    assert_eq!(button_down_events(272), vec![down, sync]);
    assert_eq!(button_up_events(272), vec![up, sync]);
    assert_eq!(button_click_events(272), vec![down, sync, up, sync]);
    let mut drag = button_down_events(272);
    drag.extend(button_up_events(272));
    assert_eq!(drag, button_click_events(272));
}

#[test]
fn moves_become_events_unless_there_is_nothing_to_move() {
    assert_eq!(movement_events(0, 0), None);
    for (dx, dy) in [(1, 0), (0, -1), (-30, 30)] {
        assert_eq!(
            movement_events(dx, dy),
            Some(vec![
                InputEvent::new(2, 0, dx),
                InputEvent::new(2, 1, dy),
                InputEvent::new(0, 0, 0),
            ])
        );
    }
}
