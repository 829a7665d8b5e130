//! The mouse buttons: which one is selected, and what the numpad does with it.

use vstd::prelude::*;
use crate::attributes::{has_led, led_codes};
use crate::config::Config;
use crate::events::{
    button_click, button_click_events, button_down, button_down_events, button_up,
    button_up_events, law_buttons_are_told_apart, InputEvent,
};
use crate::keys::{
    works_button, BTN_LEFT, BTN_MIDDLE, BTN_RIGHT, KEY_KP0, KEY_KP5, KEY_KPASTERISK,
    KEY_KPDOT, KEY_KPMINUS, KEY_KPPLUS, KEY_KPSLASH, LED_NUML,
};

verus! {

#[derive(Debug, Clone, Copy, PartialEq, Eq, Structural)]
pub enum MouseButton {
    Left,
    Middle,
    Right,
}

impl MouseButton {
    /// The code under which events speak of the button.
    pub open spec fn code(self) -> u16 {
        match self {
            MouseButton::Left => BTN_LEFT,
            MouseButton::Middle => BTN_MIDDLE,
            MouseButton::Right => BTN_RIGHT,
        }
    }
}

/// How long, in nanoseconds, NumLock is left alone after it was looked at.
pub const NUMLOCK_PAUSE: u128 = 100_000_000;

/// Whether the numpad steers the mouse, and with which button.
///
/// Times are nanoseconds on a clock of the caller's that never goes back.
#[derive(Debug, Clone, Copy, PartialEq, Eq, Structural)]
pub struct MouseKeyState {
    pub active_button: MouseButton,
    pub mousekeys_enabled: bool,
    pub mouse_enabled_when_numlock_on: bool,
    pub last_numlock_check: u128,
}

/// Whether the numpad steers the mouse while the NumLock light is `lit`.
pub open spec fn enabled_under(state: MouseKeyState, lit: bool) -> bool {
    lit == state.mouse_enabled_when_numlock_on
}

impl MouseKeyState {
    pub fn new(numlock_on: bool, now: u128) -> (state: MouseKeyState)
        ensures
            state == (MouseKeyState {
                active_button: MouseButton::Left,
                mousekeys_enabled: numlock_on,
                mouse_enabled_when_numlock_on: numlock_on,
                last_numlock_check: now,
            }),
    {
        MouseKeyState {
            active_button: MouseButton::Left,
            mousekeys_enabled: numlock_on,
            mouse_enabled_when_numlock_on: numlock_on,
            last_numlock_check: now,
        }
    }

    /// The code of the selected button.
    pub fn evdev_button(&self) -> (code: u16)
        ensures
            code == self.active_button.code(),
            self.active_button is Left ==> code == 0x110,
            self.active_button is Right ==> code == 0x111,
            self.active_button is Middle ==> code == 0x112,
    {
        match self.active_button {
            MouseButton::Left => BTN_LEFT,
            MouseButton::Middle => BTN_MIDDLE,
            MouseButton::Right => BTN_RIGHT,
        }
    }

    /// Whether it is time to look at the NumLock light: NumLock was pressed,
    /// and the last look was more than a moment ago.
    pub fn numlock_check_due(&self, numlock_pressed: bool, now: u128) -> (due: bool)
        ensures
            due == (numlock_pressed && now - self.last_numlock_check > NUMLOCK_PAUSE),
            due <==> numlock_pressed && now > self.last_numlock_check + 100_000_000,
    {
        numlock_pressed && now > self.last_numlock_check && now - self.last_numlock_check
            > NUMLOCK_PAUSE
    }

    /// Takes over what the NumLock light showed at `now`, or that it could
    /// not be read. Returns whether the mouse must come to a halt.
    pub fn numlock_checked(&mut self, lit: Option<bool>, now: u128) -> (halt: bool)
        ensures
            halt == (lit is Some),
            *final(self) == (MouseKeyState {
                mousekeys_enabled: match lit {
                    Some(on) => enabled_under(*old(self), on),
                    None => old(self).mousekeys_enabled,
                },
                last_numlock_check: now,
                ..*old(self)
            }),
    {
        self.last_numlock_check = now;
        match lit {
            Some(on) => {
                self.mousekeys_enabled = if self.mouse_enabled_when_numlock_on {
                    on
                } else {
                    !on
                };
                true
            },
            None => false,
        }
    }
}

/// Whether the NumLock light is among the lights that are on.
pub fn numlock_lit(leds: &evdev::AttributeSetRef<evdev::LedCode>) -> (lit: bool)
    ensures
        lit == led_codes(leds).contains(LED_NUML),
{
    has_led(leds, LED_NUML)
}

/// Events that wait for some milliseconds before they go to the mouse.
#[derive(Debug)]
pub enum MouseTask {
    DelayedClick(Vec<InputEvent>, u64),
}

/// What a batch of events is for.
#[derive(Debug, Clone, Copy, PartialEq, Eq, Structural)]
pub enum Purpose {
    SingleClick,
    MouseDown,
    MouseUp,
}

impl Purpose {
    pub open spec fn failure(self) -> Seq<char> {
        match self {
            Purpose::SingleClick => "Failed to emit single click"@,
            Purpose::MouseDown => "Failed to emit mouse down"@,
            Purpose::MouseUp => "Failed to emit mouse up"@,
        }
    }

    /// What to say when the events do not reach the mouse.
    pub fn failure_message(&self) -> (message: &'static str)
        ensures
            message@ == self.failure(),
    {
        match self {
            Purpose::SingleClick => "Failed to emit single click",
            Purpose::MouseDown => "Failed to emit mouse down",
            Purpose::MouseUp => "Failed to emit mouse up",
        }
    }
}

/// What has to be done when a key went down.
#[derive(Debug)]
pub enum PressAction {
    Nothing,
    /// Hand the events to the mouse now.
    Emit(Purpose, Vec<InputEvent>),
    /// Queue the two tasks, in this order.
    Queue(MouseTask, MouseTask),
}

/// What a `PressAction` says. A queued click is a batch and a delay.
pub enum PressEffect {
    Nothing,
    Emit(Purpose, Seq<InputEvent>),
    Queue((Seq<InputEvent>, u64), (Seq<InputEvent>, u64)),
}

impl View for MouseTask {
    type V = (Seq<InputEvent>, u64);

    open spec fn view(&self) -> (Seq<InputEvent>, u64) {
        match self {
            MouseTask::DelayedClick(events, delay) => (events@, *delay),
        }
    }
}

impl View for PressAction {
    type V = PressEffect;

    open spec fn view(&self) -> PressEffect {
        match self {
            PressAction::Nothing => PressEffect::Nothing,
            PressAction::Emit(purpose, events) => PressEffect::Emit(*purpose, events@),
            PressAction::Queue(first, second) => PressEffect::Queue(first@, second@),
        }
    }
}

/// The button that is selected once `key` went down.
pub open spec fn selected(button: MouseButton, key: u16) -> MouseButton {
    if key == KEY_KPSLASH {
        MouseButton::Left
    } else if key == KEY_KPASTERISK {
        MouseButton::Middle
    } else if key == KEY_KPMINUS {
        MouseButton::Right
    } else {
        button
    }
}

/// What `key` going down does with the selected button.
pub open spec fn press_effect(button: MouseButton, key: u16, double_click_delay: u64) -> PressEffect {
    if key == KEY_KP5 {
        PressEffect::Emit(Purpose::SingleClick, button_click(button.code()))
    } else if key == KEY_KPPLUS {
        PressEffect::Queue(
            (button_click(button.code()), 0),
            (button_click(button.code()), double_click_delay),
        )
    } else if key == KEY_KP0 {
        PressEffect::Emit(Purpose::MouseDown, button_down(button.code()))
    } else if key == KEY_KPDOT {
        PressEffect::Emit(Purpose::MouseUp, button_up(button.code()))
    } else {
        PressEffect::Nothing
    }
}

/// These events press the button `code`, and no more.
pub open spec fn presses(events: Seq<InputEvent>, code: u16) -> bool {
    &&& events.len() == 2
    &&& events[0].event_type == 1 && events[0].code == code && events[0].value == 1
    &&& events[1].event_type == 0 && events[1].code == 0 && events[1].value == 0
}

/// These events release the button `code`, and no more.
pub open spec fn releases(events: Seq<InputEvent>, code: u16) -> bool {
    &&& events.len() == 2
    &&& events[0].event_type == 1 && events[0].code == code && events[0].value == 0
    &&& events[1].event_type == 0 && events[1].code == 0 && events[1].value == 0
}

/// These events press the button `code`, then release it, and no more.
pub open spec fn clicks(events: Seq<InputEvent>, code: u16) -> bool {
    &&& events.len() == 4
    &&& presses(events.take(2), code)
    &&& releases(events.skip(2), code)
}

/// The action is what the key stands for, with the button `code`: 5 clicks,
/// plus clicks twice, 0 presses, the point releases, and every other key does
/// nothing.
pub open spec fn does_as_asked(action: PressAction, code: u16, key: u16, delay: u64) -> bool {
    &&& key == KEY_KP5 ==> {
        action matches PressAction::Emit(Purpose::SingleClick, events) && clicks(events@, code)
    }
    &&& key == KEY_KP0 ==> {
        action matches PressAction::Emit(Purpose::MouseDown, events) && presses(events@, code)
    }
    &&& key == KEY_KPDOT ==> {
        action matches PressAction::Emit(Purpose::MouseUp, events) && releases(events@, code)
    }
    &&& key == KEY_KPPLUS ==> {
        &&& action matches PressAction::Queue(
            MouseTask::DelayedClick(first, wait),
            MouseTask::DelayedClick(second, again),
        )
        &&& clicks(first@, code) && wait == 0
        &&& clicks(second@, code) && again == delay
    }
    &&& key != KEY_KP5 && key != KEY_KP0 && key != KEY_KPDOT && key != KEY_KPPLUS ==> action
        is Nothing
}

/// Handles `key` going down.
pub fn handle_key_press(state: &mut MouseKeyState, key: u16, config: &Config) -> (action:
    PressAction)
    ensures
        *final(state) == (MouseKeyState {
            active_button: selected(old(state).active_button, key),
            ..*old(state)
        }),
        action@ == press_effect(old(state).active_button, key, config@.double_click_delay),
        does_as_asked(action, old(state).active_button.code(), key, config.double_click_delay),
        key == KEY_KPSLASH ==> final(state).active_button is Left,
        key == KEY_KPASTERISK ==> final(state).active_button is Middle,
        key == KEY_KPMINUS ==> final(state).active_button is Right,
        key != KEY_KPSLASH && key != KEY_KPASTERISK && key != KEY_KPMINUS ==> *final(state) == *old(
            state,
        ),
{
    if key == KEY_KPSLASH {
        state.active_button = MouseButton::Left;
        PressAction::Nothing
    } else if key == KEY_KPASTERISK {
        state.active_button = MouseButton::Middle;
        PressAction::Nothing
    } else if key == KEY_KPMINUS {
        state.active_button = MouseButton::Right;
        PressAction::Nothing
    } else if key == KEY_KP5 {
        PressAction::Emit(Purpose::SingleClick, button_click_events(state.evdev_button()))
    } else if key == KEY_KPPLUS {
        PressAction::Queue(
            MouseTask::DelayedClick(button_click_events(state.evdev_button()), 0),
            MouseTask::DelayedClick(
                button_click_events(state.evdev_button()),
                config.double_click_delay,
            ),
        )
    } else if key == KEY_KP0 {
        PressAction::Emit(Purpose::MouseDown, button_down_events(state.evdev_button()))
    } else if key == KEY_KPDOT {
        PressAction::Emit(Purpose::MouseUp, button_up_events(state.evdev_button()))
    } else {
        PressAction::Nothing
    }
}

/// Holding a button down and letting it go again, with the keys that start
/// and end a drag, gives the mouse the same events as a click.
pub proof fn law_drag_is_a_click(button: MouseButton, delay: u64)
    ensures
        ({
            let start = press_effect(button, KEY_KP0, delay);
            let end = press_effect(selected(button, KEY_KP0), KEY_KPDOT, delay);
            let click = press_effect(button, KEY_KP5, delay);
            &&& start matches PressEffect::Emit(_, down)
            &&& end matches PressEffect::Emit(_, up)
            &&& click matches PressEffect::Emit(_, both)
            &&& both == down + up
        }),
{
    assert(button_click(button.code()) == button_down(button.code()) + button_up(button.code()));
}

/// A double click is the single click twice, the second one after the delay
/// that the settings ask for.
pub proof fn law_double_click_is_two_clicks(button: MouseButton, delay: u64)
    ensures
        press_effect(button, KEY_KP5, delay) matches PressEffect::Emit(_, click) && press_effect(
            button,
            KEY_KPPLUS,
            delay,
        ) == PressEffect::Queue((click, 0), (click, delay)),
{
}

/// A button, once selected, is the one that is clicked, whichever was selected
/// before, and stays selected until one of the three keys selects another.
pub proof fn law_selected_button_is_clicked(button: MouseButton, key: u16, other: u16, delay: u64)
    requires
        key == KEY_KPSLASH || key == KEY_KPASTERISK || key == KEY_KPMINUS,
    ensures
        press_effect(button, key, delay) is Nothing,
        other != KEY_KPSLASH && other != KEY_KPASTERISK && other != KEY_KPMINUS ==> selected(
            selected(button, key),
            other,
        ) == selected(button, key),
        press_effect(selected(button, key), KEY_KP5, delay) == PressEffect::Emit(
            Purpose::SingleClick,
            button_click(
                if key == KEY_KPSLASH {
                    BTN_LEFT
                } else if key == KEY_KPASTERISK {
                    BTN_MIDDLE
                } else {
                    BTN_RIGHT
                },
            ),
        ),
{
}

/// Keys other than those that work the buttons leave the buttons alone.
pub proof fn law_other_keys_leave_buttons_alone(button: MouseButton, key: u16, delay: u64)
    requires
        !works_button(key),
    ensures
        selected(button, key) == button,
        press_effect(button, key, delay) is Nothing,
{
}

/// Looking at the NumLock light leaves the numpad steering the mouse exactly
/// if the light is as the settings ask for; and the next look is not due
/// before the pause is over, however often NumLock is pressed.
pub proof fn law_numlock_decides(
    before: MouseKeyState,
    after: MouseKeyState,
    lit: bool,
    now: u128,
    later: u128,
)
    requires
        after == (MouseKeyState {
            mousekeys_enabled: enabled_under(before, lit),
            last_numlock_check: now,
            ..before
        }),
    ensures
        after.mousekeys_enabled <==> lit == before.mouse_enabled_when_numlock_on,
        after.mouse_enabled_when_numlock_on == before.mouse_enabled_when_numlock_on,
        after.active_button == before.active_button,
        later <= now + NUMLOCK_PAUSE ==> !(later - after.last_numlock_check > NUMLOCK_PAUSE),
{
}

/// The three buttons go by the codes of the kernel.
pub proof fn law_button_codes(button: MouseButton)
    ensures
        button is Left ==> button.code() == 0x110,
        button is Right ==> button.code() == 0x111,
        button is Middle ==> button.code() == 0x112,
{
}

/// What an action is said to do is what its events do.
pub proof fn law_actions_say_what_they_do(
    purpose: Purpose,
    events: Vec<InputEvent>,
    later: Vec<InputEvent>,
    wait: u64,
    again: u64,
)
    ensures
        PressAction::Emit(purpose, events)@ == PressEffect::Emit(purpose, events@),
        PressAction::Queue(
            MouseTask::DelayedClick(events, wait),
            MouseTask::DelayedClick(later, again),
        )@ == PressEffect::Queue((events@, wait), (later@, again)),
        PressAction::Nothing@ == PressEffect::Nothing,
{
}

/// What each key does with the selected button, event by event: 5 clicks it,
/// 0 presses it, the point releases it, plus clicks it at once and again after
/// the delay, and every other key does nothing with it.
pub proof fn law_keys_and_buttons(button: MouseButton, key: u16, delay: u64)
    ensures
        press_effect(button, KEY_KP5, delay) matches PressEffect::Emit(
            Purpose::SingleClick,
            events,
        ) && clicks(events, button.code()),
        press_effect(button, KEY_KP0, delay) matches PressEffect::Emit(Purpose::MouseDown, events)
            && presses(events, button.code()),
        press_effect(button, KEY_KPDOT, delay) matches PressEffect::Emit(Purpose::MouseUp, events)
            && releases(events, button.code()),
        press_effect(button, KEY_KPPLUS, delay) matches PressEffect::Queue(first, second) && clicks(
            first.0,
            button.code(),
        ) && first.1 == 0 && clicks(second.0, button.code()) && second.1 == delay,
        key != KEY_KP5 && key != KEY_KP0 && key != KEY_KPDOT && key != KEY_KPPLUS ==> press_effect(
            button,
            key,
            delay,
        ) is Nothing,
        selected(button, KEY_KPSLASH) is Left,
        selected(button, KEY_KPASTERISK) is Middle,
        selected(button, KEY_KPMINUS) is Right,
        key != KEY_KPSLASH && key != KEY_KPASTERISK && key != KEY_KPMINUS ==> selected(button, key)
            == button,
{
}

/// Clicks of different buttons differ, and so do presses and releases.
pub proof fn law_each_button_has_its_own_events(one: MouseButton, other: MouseButton, delay: u64)
    requires
        one != other,
    ensures
        press_effect(one, KEY_KP5, delay) != press_effect(other, KEY_KP5, delay),
        press_effect(one, KEY_KPPLUS, delay) != press_effect(other, KEY_KPPLUS, delay),
        press_effect(one, KEY_KP0, delay) != press_effect(other, KEY_KP0, delay),
        press_effect(one, KEY_KPDOT, delay) != press_effect(other, KEY_KPDOT, delay),
{
    law_buttons_are_told_apart(one.code(), other.code());
}

/// The events that the keys for a drag and for a click give the mouse, with
/// any button: 0 presses it, the point releases it, 5 does both in turn.
pub proof fn law_drags_and_clicks(button: MouseButton, delay: u64)
    ensures
        press_effect(button, KEY_KP0, delay) matches PressEffect::Emit(_, down) && down.len() == 2
            && down[0].event_type == 1 && down[0].code == button.code() && down[0].value == 1
            && down[1].event_type == 0,
        press_effect(button, KEY_KPDOT, delay) matches PressEffect::Emit(_, up) && up.len() == 2
            && up[0].event_type == 1 && up[0].code == button.code() && up[0].value == 0
            && up[1].event_type == 0,
        press_effect(button, KEY_KP5, delay) matches PressEffect::Emit(_, both) && both.len() == 4
            && both[0].event_type == 1 && both[0].code == button.code() && both[0].value == 1
            && both[1].event_type == 0 && both[2].event_type == 1 && both[2].code == button.code()
            && both[2].value == 0 && both[3].event_type == 0,
{
}

} // verus!
