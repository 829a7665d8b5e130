use evdev::{AttributeSet, LedCode};
use mousekeys::buttons::{
    handle_key_press, numlock_lit, MouseButton, MouseKeyState, MouseTask, PressAction, Purpose,
};
use mousekeys::config::Config;
use mousekeys::events::{
    button_click_events, button_down_events, button_up_events, InputEvent, EV_KEY,
};
use mousekeys::keys::{
    BTN_LEFT, BTN_MIDDLE, BTN_RIGHT, KEY_A, KEY_KP0, KEY_KP1, KEY_KP2, KEY_KP3, KEY_KP4, KEY_KP5,
    KEY_KP6, KEY_KP7, KEY_KP8, KEY_KP9, KEY_KPASTERISK, KEY_KPDOT, KEY_KPMINUS, KEY_KPPLUS,
    KEY_KPSLASH, KEY_LEFTCTRL, KEY_LEFTSHIFT, KEY_NUMLOCK, KEY_RIGHTCTRL, KEY_RIGHTSHIFT,
};
use mousekeys::motion::{ModifierChange, ModifierKey, Modifiers, MouseMoveState, MovePlan};
use mousekeys::session::{
    after_session, after_switch, classify_event, handle_keyboard_change, handle_mouse_key,
    handle_numlock, modifier_key, numlock_noticed,
    EventClass, EventStep, NextRun, ReadOutcome, SessionEnd, SessionStep, StepReport,
    SwitchFollowUp, SwitchResult, SwitchStep,
};

const NONE: Modifiers =
    Modifiers { left_shift: false, right_shift: false, left_ctrl: false, right_ctrl: false };
const SHIFT: Modifiers =
    Modifiers { left_shift: true, right_shift: false, left_ctrl: false, right_ctrl: false };

fn emitted(action: PressAction) -> (Purpose, Vec<InputEvent>) {
    match action {
        PressAction::Emit(purpose, events) => (purpose, events),
        other => panic!("{:?}", other),
    }
}

fn direction(codes: &[u16]) -> (i32, i32) {
    let mut motion = MouseMoveState::default();
    for &code in codes {
        motion.press(code);
    }
    let plan = motion.plan(NONE, &Config::default());
    (plan.dx, plan.dy)
}

#[test]
fn a_fresh_state_has_the_left_button() {
    for on in [true, false] {
        let state = MouseKeyState::new(on, 7);
        assert_eq!(state.active_button, MouseButton::Left);
        assert_eq!(state.mousekeys_enabled, on);
        assert_eq!(state.mouse_enabled_when_numlock_on, on);
        assert_eq!(state.last_numlock_check, 7);
        assert_eq!(state.evdev_button(), BTN_LEFT);
    }
}

#[test]
fn the_selected_button_is_clicked() {
    let config = Config::default();
    let mut state = MouseKeyState::new(true, 0);
    for (key, button) in
        [(KEY_KPASTERISK, BTN_MIDDLE), (KEY_KPMINUS, BTN_RIGHT), (KEY_KPSLASH, BTN_LEFT)]
    {
        assert!(matches!(handle_key_press(&mut state, key, &config), PressAction::Nothing));
        assert_eq!(state.evdev_button(), button);
        let (purpose, events) = emitted(handle_key_press(&mut state, KEY_KP5, &config));
        assert_eq!(purpose, Purpose::SingleClick);
        assert_eq!(events, button_click_events(button));
        assert_eq!(state.evdev_button(), button);
    }
}

#[test]
fn dragging_holds_the_button() {
    let config = Config::default();
    let mut state = MouseKeyState::new(true, 0);
    let (purpose, down) = emitted(handle_key_press(&mut state, KEY_KP0, &config));
    assert_eq!(purpose, Purpose::MouseDown);
    assert_eq!(down, button_down_events(BTN_LEFT));
    let (purpose, up) = emitted(handle_key_press(&mut state, KEY_KPDOT, &config));
    assert_eq!(purpose, Purpose::MouseUp);
    assert_eq!(up, button_up_events(BTN_LEFT));
}

#[test]
fn a_double_click_is_two_clicks() {
    let mut config = Config::default();
    config.apply_line("double_click_delay = 40");
    let mut state = MouseKeyState::new(true, 0);
    match handle_key_press(&mut state, KEY_KPPLUS, &config) {
        PressAction::Queue(
            MouseTask::DelayedClick(first, now),
            MouseTask::DelayedClick(second, later),
        ) => {
            assert_eq!(first, button_click_events(BTN_LEFT));
            assert_eq!(second, first);
            assert_eq!(now, 0);
            assert_eq!(later, 40);
        }
        other => panic!("{:?}", other),
    }
}

#[test]
fn other_keys_do_nothing_to_the_buttons() {
    let config = Config::default();
    for key in [KEY_KP1, KEY_KP8, KEY_A, KEY_NUMLOCK] {
        let mut state = MouseKeyState::new(true, 0);
        assert!(matches!(handle_key_press(&mut state, key, &config), PressAction::Nothing));
        assert_eq!(state, MouseKeyState::new(true, 0));
    }
}

#[test]
fn failures_are_put_in_words() {
    assert_eq!(Purpose::SingleClick.failure_message(), "Failed to emit single click");
    assert_eq!(Purpose::MouseDown.failure_message(), "Failed to emit mouse down");
    assert_eq!(Purpose::MouseUp.failure_message(), "Failed to emit mouse up");
}

#[test]
fn numlock_is_looked_at_when_pressed_but_not_too_often() {
    let state = MouseKeyState::new(true, 1_000);
    assert!(!state.numlock_check_due(false, 200_000_000));
    assert!(!state.numlock_check_due(true, 0));
    assert!(!state.numlock_check_due(true, 1_000));
    assert!(!state.numlock_check_due(true, 100_001_000));
    assert!(state.numlock_check_due(true, 100_001_001));
}

#[test]
fn numlock_decides_whether_the_mouse_is_steered() {
    for wanted in [true, false] {
        for lit in [true, false] {
            let mut state = MouseKeyState::new(wanted, 0);
            assert!(state.numlock_checked(Some(lit), 50));
            assert_eq!(state.mousekeys_enabled, lit == wanted);
            assert_eq!(state.mouse_enabled_when_numlock_on, wanted);
            assert_eq!(state.last_numlock_check, 50);
        }
        let mut state = MouseKeyState::new(wanted, 0);
        assert!(!state.numlock_checked(None, 50));
        assert_eq!(state.mousekeys_enabled, wanted);
        assert_eq!(state.last_numlock_check, 50);
    }
}

#[test]
fn the_numlock_light_is_one_of_several() {
    let dark: AttributeSet<LedCode> = AttributeSet::new();
    assert!(!numlock_lit(&dark));
    let caps: AttributeSet<LedCode> = [LedCode::LED_CAPSL].into_iter().collect();
    assert!(!numlock_lit(&caps));
    let both: AttributeSet<LedCode> =
        [LedCode::LED_CAPSL, LedCode::LED_NUML].into_iter().collect();
    assert!(numlock_lit(&both));
}

#[test]
fn eight_directions() {
    assert_eq!(direction(&[]), (0, 0));
    assert_eq!(direction(&[KEY_KP1]), (-1, 1));
    assert_eq!(direction(&[KEY_KP2]), (0, 1));
    assert_eq!(direction(&[KEY_KP3]), (1, 1));
    assert_eq!(direction(&[KEY_KP4]), (-1, 0));
    assert_eq!(direction(&[KEY_KP6]), (1, 0));
    assert_eq!(direction(&[KEY_KP7]), (-1, -1));
    assert_eq!(direction(&[KEY_KP8]), (0, -1));
    assert_eq!(direction(&[KEY_KP9]), (1, -1));
    assert_eq!(direction(&[KEY_KP5, KEY_A]), (0, 0));
}

#[test]
fn held_keys_add_up_and_opposite_ones_cancel() {
    assert_eq!(direction(&[KEY_KP4, KEY_KP8]), (-1, -1));
    assert_eq!(direction(&[KEY_KP6, KEY_KP6]), (1, 0));
    assert_eq!(direction(&[KEY_KP3, KEY_KP6, KEY_KP9]), (3, 0));
    assert_eq!(direction(&[KEY_KP1, KEY_KP2, KEY_KP3]), (0, 3));
    assert_eq!(direction(&[KEY_KP7, KEY_KP8, KEY_KP9]), (0, -3));
    for (a, b) in [(KEY_KP1, KEY_KP9), (KEY_KP2, KEY_KP8), (KEY_KP3, KEY_KP7), (KEY_KP4, KEY_KP6)]
    {
        assert_eq!(direction(&[a, b]), (0, 0));
        assert_eq!(direction(&[b, a]), (0, 0));
    }
    let all =
        [KEY_KP1, KEY_KP2, KEY_KP3, KEY_KP4, KEY_KP6, KEY_KP7, KEY_KP8, KEY_KP9];
    assert_eq!(direction(&all), (0, 0));
}

#[test]
fn three_modes_of_speed() {
    let mut config = Config::default();
    config.apply_line("vmax_normal = 11");
    config.apply_line("vmax_fast = 22");
    config.apply_line("vmax_slow = 3");
    let plan = |left_shift: bool, right_shift: bool, left_ctrl: bool, right_ctrl: bool| {
        let mut motion = MouseMoveState::default();
        motion.press(KEY_KP6);
        let modifiers = Modifiers { left_shift, right_shift, left_ctrl, right_ctrl };
        assert_eq!(modifiers.holds_shift(), left_shift || right_shift);
        assert_eq!(modifiers.holds_ctrl(), left_ctrl || right_ctrl);
        let plan = motion.plan(modifiers, &config);
        assert_eq!(motion.next_move(modifiers, &config), Some(plan));
        assert_eq!(modifiers.effective_vmax(&config), plan.vmax);
        plan
    };
    let normal = MovePlan { dx: 1, dy: 0, vmax: 11, linear: false };
    let slow = MovePlan { dx: 1, dy: 0, vmax: 3, linear: true };
    let fast = MovePlan { dx: 1, dy: 0, vmax: 22, linear: true };
    assert_eq!(plan(false, false, false, false), normal);
    for (left, right) in [(true, false), (false, true), (true, true)] {
        assert_eq!(plan(left, right, false, false), slow);
        assert_eq!(plan(false, false, left, right), fast);
        assert_eq!(plan(left, right, true, false), fast);
        assert_eq!(plan(left, right, false, true), fast);
    }
}

#[test]
fn modifiers_come_and_go() {
    let mut m = Modifiers::default();
    assert_eq!(m, NONE);
    m.apply(ModifierChange { key: ModifierKey::LeftShift, down: true });
    assert_eq!(m, SHIFT);
    m.apply(ModifierChange { key: ModifierKey::RightCtrl, down: true });
    assert_eq!(m, Modifiers { right_ctrl: true, ..SHIFT });
    m.apply(ModifierChange { key: ModifierKey::LeftShift, down: false });
    assert_eq!(m, Modifiers { right_ctrl: true, ..NONE });
    m.apply(ModifierChange { key: ModifierKey::RightCtrl, down: false });
    assert_eq!(m, NONE);
    m.apply(ModifierChange { key: ModifierKey::RightShift, down: true });
    assert_eq!(m, Modifiers { right_shift: true, ..NONE });
    m.apply(ModifierChange { key: ModifierKey::LeftCtrl, down: true });
    assert_eq!(m, Modifiers { right_shift: true, left_ctrl: true, ..NONE });
}

#[test]
fn the_mouse_is_to_move_while_a_key_is_held() {
    let mut motion = MouseMoveState::default();
    assert!(!motion.is_active());
    assert_eq!(motion.next_move(NONE, &Config::default()), None);
    assert!(motion.press(KEY_KP4));
    assert!(motion.press(KEY_KP8));
    assert!(motion.is_active());
    let plan = MovePlan { dx: -1, dy: -1, vmax: 10, linear: false };
    assert_eq!(motion.next_move(NONE, &Config::default()), Some(plan));
    motion.release(KEY_KP4);
    assert!(motion.is_active());
    assert!(!motion.is_pressed(KEY_KP4));
    assert!(motion.is_pressed(KEY_KP8));
    motion.release(KEY_KP5);
    assert!(motion.is_active());
    motion.release(KEY_KP8);
    assert!(!motion.is_active());
    assert!(!motion.press(KEY_KP5));
    assert!(!motion.is_active());
}

#[test]
fn every_movement_key_can_be_let_go_of() {
    let mut motion = MouseMoveState::default();
    motion.set_modifiers(SHIFT);
    motion.press(KEY_KP4);
    motion.press(KEY_KP9);
    motion.clear();
    assert!(!motion.is_active());
    assert!(!motion.is_pressed(KEY_KP4));
    assert!(!motion.is_pressed(KEY_KP9));
    assert_eq!(motion.modifiers(), SHIFT);
}

#[test]
fn events_are_told_apart() {
    let class = |event_type, code, value, enabled| {
        classify_event(&InputEvent::new(event_type, code, value), enabled)
    };
    let modifier = |key, down| EventClass::Modifier(ModifierChange { key, down });
    for enabled in [true, false] {
        for (code, key) in [
            (KEY_LEFTSHIFT, ModifierKey::LeftShift),
            (KEY_RIGHTSHIFT, ModifierKey::RightShift),
            (KEY_LEFTCTRL, ModifierKey::LeftCtrl),
            (KEY_RIGHTCTRL, ModifierKey::RightCtrl),
        ] {
            assert_eq!(modifier_key(code), Some(key));
            assert_eq!(class(EV_KEY, code, 1, enabled), modifier(key, true));
            assert_eq!(class(EV_KEY, code, 0, enabled), modifier(key, false));
            assert_eq!(class(EV_KEY, code, 2, enabled), EventClass::Other);
        }
        assert_eq!(modifier_key(KEY_A), None);
        assert_eq!(class(EV_KEY, KEY_NUMLOCK, 1, enabled), EventClass::NumLock);
        assert_eq!(class(EV_KEY, KEY_NUMLOCK, 0, enabled), EventClass::Other);
        assert_eq!(class(EV_KEY, KEY_A, 1, enabled), EventClass::Other);
        assert_eq!(class(4, KEY_KP1, 1, enabled), EventClass::Other);
        assert_eq!(class(0, 0, 0, enabled), EventClass::Other);
    }
    for value in [0, 1, 2] {
        assert_eq!(class(EV_KEY, KEY_KP1, value, true), EventClass::MouseKey);
        assert_eq!(class(EV_KEY, KEY_KPPLUS, value, true), EventClass::MouseKey);
        assert_eq!(class(EV_KEY, KEY_KP1, value, false), EventClass::Other);
    }
}

fn steps(class: EventClass, outcomes: &[bool]) -> Vec<EventStep> {
    let mut taken = Vec::new();
    let mut step = EventStep::first(class);
    let mut outcomes = outcomes.iter();
    while step != EventStep::Finished {
        taken.push(step);
        step = step.next(*outcomes.next().unwrap_or(&true));
    }
    taken
}

#[test]
fn events_are_handed_on_or_steer_the_mouse() {
    let change = ModifierChange { key: ModifierKey::LeftCtrl, down: true };
    let modifier = EventClass::Modifier(change);
    let set = EventStep::SetModifier(change);
    assert_eq!(steps(EventClass::MouseKey, &[true]), vec![EventStep::SteerMouse]);
    assert_eq!(steps(EventClass::MouseKey, &[false]), vec![EventStep::SteerMouse]);
    assert_eq!(steps(EventClass::Other, &[]), vec![EventStep::Forward]);
    assert_eq!(steps(EventClass::NumLock, &[false]), vec![EventStep::Forward]);
    let synced = vec![set, EventStep::SyncModifiers, EventStep::Forward];
    assert_eq!(steps(modifier, &[true, true]), synced);
    assert_eq!(steps(modifier, &[true, false]), synced);
    assert_eq!(steps(modifier, &[false]), vec![set, EventStep::Forward]);
    assert_eq!(EventStep::Finished.next(true), EventStep::Finished);
}

#[test]
fn movement_keys_move_and_button_keys_click() {
    let config = Config::default();
    let mut state = MouseKeyState::new(true, 0);
    let mut motion = MouseMoveState::default();
    let slow = SHIFT;

    let outcome = handle_mouse_key(&mut state, &mut motion, slow, KEY_KP9, 1, &config);
    assert!(outcome.halt);
    assert!(matches!(outcome.action, PressAction::Nothing));
    assert!(motion.is_pressed(KEY_KP9) && motion.is_active());
    assert_eq!(motion.modifiers(), slow);

    let outcome = handle_mouse_key(&mut state, &mut motion, NONE, KEY_KP9, 2, &config);
    assert!(!outcome.halt);
    assert!(matches!(outcome.action, PressAction::Nothing));
    assert!(motion.is_pressed(KEY_KP9) && motion.is_active());
    assert_eq!(motion.modifiers(), NONE);

    let outcome = handle_mouse_key(&mut state, &mut motion, NONE, KEY_KPMINUS, 1, &config);
    assert!(!outcome.halt);
    assert_eq!(state.active_button, MouseButton::Right);
    assert!(!motion.is_pressed(KEY_KPMINUS));

    let outcome = handle_mouse_key(&mut state, &mut motion, NONE, KEY_KP5, 1, &config);
    assert!(!outcome.halt);
    assert_eq!(emitted(outcome.action).1, button_click_events(BTN_RIGHT));

    let outcome = handle_mouse_key(&mut state, &mut motion, NONE, KEY_KP5, 0, &config);
    assert!(matches!(outcome.action, PressAction::Nothing));
    assert!(motion.is_active());

    let outcome = handle_mouse_key(&mut state, &mut motion, NONE, KEY_KP9, 0, &config);
    assert!(!outcome.halt);
    assert!(!motion.is_pressed(KEY_KP9) && !motion.is_active());
}

fn switch(outcomes: [bool; 7]) -> (Vec<SwitchStep>, SwitchResult) {
    let mut taken = Vec::new();
    let mut step = SwitchStep::first();
    for ok in outcomes {
        if let SwitchStep::Done(_) = step {
            break;
        }
        taken.push(step);
        step = step.next(ok);
    }
    match step {
        SwitchStep::Done(result) => {
            assert_eq!(step.next(true), step);
            assert_eq!(step.next(false), step);
            (taken, result)
        }
        other => panic!("{:?}", other),
    }
}

#[test]
fn changing_keyboards() {
    let (taken, result) = switch([true; 7]);
    assert_eq!(result, SwitchResult::Switched);
    assert_eq!(
        taken,
        vec![
            SwitchStep::UngrabOld,
            SwitchStep::OpenNew,
            SwitchStep::UnblockNew,
            SwitchStep::GrabNew
        ]
    );
    assert_eq!(switch([false, true, true, true, true, true, true]).1, SwitchResult::Switched);
    assert_eq!(switch([true, false, true, true, true, true, true]).1, SwitchResult::NotOpened);
    assert_eq!(switch([true, true, false, true, true, true, true]).1, SwitchResult::NotUnblocked);
    let (taken, result) = switch([true, true, true, false, true, true, true]);
    assert_eq!(result, SwitchResult::Reverted);
    assert_eq!(taken.len(), 7);
    assert_eq!(switch([true, true, true, false, false, true, true]).1, SwitchResult::NotReverted);
    assert_eq!(switch([true, true, true, false, true, false, true]).1, SwitchResult::NotReverted);
    assert_eq!(switch([true, true, true, false, true, true, false]).1, SwitchResult::NotReverted);
}

#[test]
fn what_a_change_of_keyboards_entails() {
    assert_eq!(
        after_switch(SwitchResult::Switched),
        SwitchFollowUp { uses_new: true, clears_keys: true, reads: true }
    );
    for result in [SwitchResult::NotOpened, SwitchResult::Reverted, SwitchResult::NotReverted] {
        assert_eq!(
            after_switch(result),
            SwitchFollowUp { uses_new: false, clears_keys: false, reads: true }
        );
    }
    assert_eq!(
        after_switch(SwitchResult::NotUnblocked),
        SwitchFollowUp { uses_new: false, clears_keys: false, reads: false }
    );
}

#[test]
fn numlock_counts_anywhere_in_a_batch() {
    let noticed = |classes: &[EventClass]| classes.iter().fold(false, |n, &c| numlock_noticed(n, c));
    assert!(!noticed(&[]));
    assert!(!noticed(&[EventClass::Other, EventClass::MouseKey]));
    assert!(noticed(&[EventClass::NumLock]));
    assert!(noticed(&[EventClass::NumLock, EventClass::Other]));
    assert!(noticed(&[EventClass::Other, EventClass::NumLock, EventClass::MouseKey]));
}

#[test]
fn turns_of_a_session() {
    let calm = StepReport {
        stop: false,
        switch: None,
        read: ReadOutcome::Batch,
        device_present: true,
    };
    let first = SessionStep::first();
    assert_eq!(first, SessionStep::CheckStop);
    assert_eq!(first.next(calm), SessionStep::CheckSwitch);
    assert_eq!(SessionStep::CheckSwitch.next(calm), SessionStep::Read);
    assert_eq!(SessionStep::Read.next(calm), SessionStep::HandleBatch);
    assert_eq!(SessionStep::HandleBatch.next(calm), SessionStep::CheckDevice);
    assert_eq!(SessionStep::CheckDevice.next(calm), SessionStep::CheckStop);

    let nothing = StepReport { read: ReadOutcome::WouldBlock, ..calm };
    assert_eq!(SessionStep::Read.next(nothing), SessionStep::Wait(5));
    assert_eq!(SessionStep::Wait(5).next(nothing), SessionStep::CheckStop);
    for result in [
        SwitchResult::Switched,
        SwitchResult::NotOpened,
        SwitchResult::Reverted,
        SwitchResult::NotReverted,
    ] {
        let report = StepReport { switch: Some(result), ..calm };
        assert_eq!(SessionStep::CheckSwitch.next(report), SessionStep::Read);
    }
    let report = StepReport { switch: Some(SwitchResult::NotUnblocked), ..calm };
    assert_eq!(SessionStep::CheckSwitch.next(report), SessionStep::CheckStop);
}

#[test]
fn ends_of_a_session() {
    let all_wrong = StepReport {
        stop: true,
        switch: None,
        read: ReadOutcome::Failed,
        device_present: false,
    };
    let ended = |end| SessionStep::Ended(end);
    assert_eq!(SessionStep::CheckStop.next(all_wrong), ended(SessionEnd::Stopped));
    assert_eq!(SessionStep::Read.next(all_wrong), ended(SessionEnd::ReadError));
    assert_eq!(SessionStep::CheckDevice.next(all_wrong), ended(SessionEnd::Disconnected));
    for step in [SessionStep::CheckSwitch, SessionStep::Wait(5), SessionStep::HandleBatch] {
        assert!(!matches!(step.next(all_wrong), SessionStep::Ended(_)));
    }
    for end in [SessionEnd::Stopped, SessionEnd::ReadError, SessionEnd::Disconnected] {
        assert_eq!(ended(end).next(all_wrong), ended(end));
    }
    assert_eq!(SessionEnd::Stopped.error_message("/dev/x", "broken"), None);
    assert_eq!(
        SessionEnd::ReadError.error_message("/dev/x", "broken"),
        Some("Keyboard read error: broken".to_string())
    );
    assert_eq!(
        SessionEnd::Disconnected.error_message("/dev/x", "broken"),
        Some("Keyboard device disconnected: /dev/x".to_string())
    );
}

#[test]
fn what_follows_a_session() {
    let mut config = Config::default();
    assert_eq!(after_session(true, &config), NextRun::Stop);
    assert_eq!(after_session(false, &config), NextRun::RestartAfter(2));
    config.apply_line("reconnect_delay = 9");
    assert_eq!(after_session(false, &config), NextRun::RestartAfter(9));
}

fn held_after(changes: &[(u16, i32)]) -> Modifiers {
    let mut m = Modifiers::default();
    for (i, &(code, value)) in changes.iter().enumerate() {
        let event = InputEvent::new(EV_KEY, code, value);
        if let EventClass::Modifier(change) = classify_event(&event, i % 2 == 0) {
            m.apply(change);
        }
    }
    m
}

#[test]
fn a_modifier_is_held_while_one_of_its_keys_is_down() {
    assert_eq!(held_after(&[(KEY_LEFTSHIFT, 1), (KEY_LEFTSHIFT, 2)]), SHIFT);
    for (left, right) in [(KEY_LEFTSHIFT, KEY_RIGHTSHIFT), (KEY_LEFTCTRL, KEY_RIGHTCTRL)] {
        for (stays, goes) in [(left, right), (right, left)] {
            let down = [(stays, 1), (goes, 1), (KEY_A, 1), (goes, 0)];
            let m = held_after(&down);
            assert!(if left == KEY_LEFTSHIFT { m.holds_shift() } else { m.holds_ctrl() });
            let mut up = down.to_vec();
            up.push((stays, 0));
            assert_eq!(held_after(&up), NONE);
        }
    }
}

#[test]
fn one_shift_key_of_two_keeps_the_mouse_slow() {
    let config = Config::default();
    let m = held_after(&[(KEY_LEFTSHIFT, 1), (KEY_RIGHTSHIFT, 1), (KEY_RIGHTSHIFT, 0)]);
    let mut state = MouseKeyState::new(true, 0);
    let mut motion = MouseMoveState::default();
    handle_mouse_key(&mut state, &mut motion, m, KEY_KP6, 1, &config);
    let plan = MovePlan { dx: 1, dy: 0, vmax: 1, linear: true };
    assert_eq!(motion.next_move(m, &config), Some(plan));
}

#[test]
fn turning_the_numpad_off_lets_go_of_the_keys() {
    let config = Config::default();
    for when_on in [true, false] {
        let mut state = MouseKeyState::new(when_on, 0);
        let mut motion = MouseMoveState::default();
        assert!(handle_numlock(&mut state, &mut motion, Some(when_on), 200));
        assert!(state.mousekeys_enabled);

        handle_mouse_key(&mut state, &mut motion, SHIFT, KEY_KP6, 1, &config);
        assert!(!handle_numlock(&mut state, &mut motion, None, 300));
        assert!(handle_numlock(&mut state, &mut motion, Some(when_on), 400));
        assert!(motion.is_pressed(KEY_KP6) && motion.is_active());

        assert!(handle_numlock(&mut state, &mut motion, Some(!when_on), 500));
        assert!(!state.mousekeys_enabled);
        assert_eq!(state.last_numlock_check, 500);
        assert!(!motion.is_pressed(KEY_KP6) && !motion.is_active());
        assert_eq!(motion.modifiers(), SHIFT);
        assert_eq!(motion.next_move(NONE, &config), None);

        let release = InputEvent::new(EV_KEY, KEY_KP6, 0);
        assert_eq!(classify_event(&release, state.mousekeys_enabled), EventClass::Other);
        assert!(handle_numlock(&mut state, &mut motion, Some(when_on), 600));
        assert!(!motion.is_active());
    }
}

#[test]
fn a_change_of_keyboards_lets_go_of_every_key() {
    let mut modifiers = Modifiers::default();
    modifiers.apply(ModifierChange { key: ModifierKey::LeftShift, down: true });
    let mut motion = MouseMoveState::default();
    motion.set_modifiers(modifiers);
    motion.press(KEY_KP4);
    handle_keyboard_change(&mut motion, &mut modifiers);
    assert_eq!(modifiers, NONE);
    assert_eq!(motion.modifiers(), NONE);
    assert!(!motion.is_pressed(KEY_KP4) && !motion.is_active());

    for down in [true, false] {
        modifiers.apply(ModifierChange { key: ModifierKey::RightShift, down });
        assert_eq!(modifiers.holds_shift(), down);
    }
    let mut all = Modifiers { left_shift: true, right_shift: true, left_ctrl: true, right_ctrl: true };
    all.clear();
    assert_eq!(all, NONE);
}
