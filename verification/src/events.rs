//! Input events, in the shape in which the kernel delivers and accepts them.

use vstd::prelude::*;

verus! {

/// Closes a batch of events.
pub const EV_SYN: u16 = 0;

/// A key or a button changed.
pub const EV_KEY: u16 = 1;

/// Something moved along an axis.
pub const EV_REL: u16 = 2;

pub const REL_X: u16 = 0;

pub const REL_Y: u16 = 1;

/// The value of a key event when the key goes up.
pub const RELEASED: i32 = 0;

/// The value of a key event when the key goes down.
pub const PRESSED: i32 = 1;

#[derive(Debug, Clone, Copy, PartialEq, Eq, Structural)]
pub struct InputEvent {
    pub event_type: u16,
    pub code: u16,
    pub value: i32,
}

impl InputEvent {
    pub fn new(event_type: u16, code: u16, value: i32) -> (event: InputEvent)
        ensures
            event == (InputEvent { event_type, code, value }),
            event.event_type == event_type && event.code == code && event.value == value,
    {
        InputEvent { event_type, code, value }
    }
}

/// The event that closes a batch.
pub open spec fn sync() -> InputEvent {
    InputEvent { event_type: EV_SYN, code: 0, value: 0 }
}

/// The event of the button `code` going down or up.
pub open spec fn button_event(code: u16, value: i32) -> InputEvent {
    InputEvent { event_type: EV_KEY, code, value }
}

/// The event of a move by `distance` along the axis `axis`.
pub open spec fn axis_event(axis: u16, distance: i32) -> InputEvent {
    InputEvent { event_type: EV_REL, code: axis, value: distance }
}

/// The batch that presses the button `code`.
pub open spec fn button_down(code: u16) -> Seq<InputEvent> {
    seq![button_event(code, PRESSED), sync()]
}

/// The batch that releases the button `code`.
pub open spec fn button_up(code: u16) -> Seq<InputEvent> {
    seq![button_event(code, RELEASED), sync()]
}

/// The batch that presses the button `code` and releases it again.
pub open spec fn button_click(code: u16) -> Seq<InputEvent> {
    seq![button_event(code, PRESSED), sync(), button_event(code, RELEASED), sync()]
}

/// The batch that moves the mouse by `dx` to the right and `dy` down.
pub open spec fn mouse_move(dx: i32, dy: i32) -> Seq<InputEvent> {
    seq![axis_event(REL_X, dx), axis_event(REL_Y, dy), sync()]
}

pub fn button_down_events(code: u16) -> (events: Vec<InputEvent>)
    ensures
        events@ == button_down(code),
        events.len() == 2,
        events[0].event_type == 1 && events[0].code == code && events[0].value == 1,
        events[1].event_type == 0 && events[1].code == 0 && events[1].value == 0,
{
    vec![InputEvent::new(EV_KEY, code, PRESSED), InputEvent::new(EV_SYN, 0, 0)]
}

pub fn button_up_events(code: u16) -> (events: Vec<InputEvent>)
    ensures
        events@ == button_up(code),
        events.len() == 2,
        events[0].event_type == 1 && events[0].code == code && events[0].value == 0,
        events[1].event_type == 0 && events[1].code == 0 && events[1].value == 0,
{
    vec![InputEvent::new(EV_KEY, code, RELEASED), InputEvent::new(EV_SYN, 0, 0)]
}

pub fn button_click_events(code: u16) -> (events: Vec<InputEvent>)
    ensures
        events@ == button_click(code),
        events.len() == 4,
        events[0].event_type == 1 && events[0].code == code && events[0].value == 1,
        events[1].event_type == 0 && events[1].code == 0 && events[1].value == 0,
        events[2].event_type == 1 && events[2].code == code && events[2].value == 0,
        events[3].event_type == 0 && events[3].code == 0 && events[3].value == 0,
{
    vec![
        InputEvent::new(EV_KEY, code, PRESSED),
        InputEvent::new(EV_SYN, 0, 0),
        InputEvent::new(EV_KEY, code, RELEASED),
        InputEvent::new(EV_SYN, 0, 0),
    ]
}

/// The events that move the mouse by `dx` and `dy`, or `None` where there is
/// nothing to move.
pub fn movement_events(dx: i32, dy: i32) -> (events: Option<Vec<InputEvent>>)
    ensures
        events is None <==> dx == 0 && dy == 0,
        events matches Some(batch) ==> batch@ == mouse_move(dx, dy),
        events matches Some(batch) ==> {
            &&& batch.len() == 3
            &&& batch[0].event_type == 2 && batch[0].code == 0 && batch[0].value == dx
            &&& batch[1].event_type == 2 && batch[1].code == 1 && batch[1].value == dy
            &&& batch[2].event_type == 0 && batch[2].code == 0 && batch[2].value == 0
        },
{
    if dx != 0 || dy != 0 {
        Some(
            vec![
                InputEvent::new(EV_REL, REL_X, dx),
                InputEvent::new(EV_REL, REL_Y, dy),
                InputEvent::new(EV_SYN, 0, 0),
            ],
        )
    } else {
        None
    }
}

/// A click is a press followed by a release.
pub proof fn law_click_is_down_then_up(code: u16)
    ensures
        button_click(code) == button_down(code) + button_up(code),
{
}

/// Every batch that goes to the virtual mouse is closed.
pub proof fn law_batches_are_closed(code: u16, dx: i32, dy: i32)
    ensures
        button_down(code).last() == sync(),
        button_up(code).last() == sync(),
        button_click(code).last() == sync(),
        mouse_move(dx, dy).last() == sync(),
{
}

/// A click carries its button: the first of its four events presses the button
/// `code` and the third one releases it, and each is closed. The same goes for
/// a press and a release alone.
pub proof fn law_batches_carry_the_button(code: u16)
    ensures
        ({
            let click = button_click(code);
            &&& click.len() == 4
            &&& click[0].event_type == 1 && click[0].code == code && click[0].value == 1
            &&& click[1].event_type == 0 && click[1].code == 0 && click[1].value == 0
            &&& click[2].event_type == 1 && click[2].code == code && click[2].value == 0
            &&& click[3].event_type == 0 && click[3].code == 0 && click[3].value == 0
        }),
        ({
            let down = button_down(code);
            let up = button_up(code);
            &&& down.len() == 2 && up.len() == 2
            &&& down[0].event_type == 1 && down[0].code == code && down[0].value == 1
            &&& up[0].event_type == 1 && up[0].code == code && up[0].value == 0
            &&& down[1].event_type == 0 && down[1].code == 0 && down[1].value == 0
            &&& up[1] == down[1]
        }),
{
}

/// Different buttons are clicked, pressed and released differently.
pub proof fn law_buttons_are_told_apart(code: u16, other: u16)
    requires
        code != other,
    ensures
        button_click(code) != button_click(other),
        button_down(code) != button_down(other),
        button_up(code) != button_up(other),
{
    assert(button_click(code)[0].code != button_click(other)[0].code);
    assert(button_down(code)[0].code != button_down(other)[0].code);
    assert(button_up(code)[0].code != button_up(other)[0].code);
}

/// A move carries both distances, each on its own axis, whatever they are.
pub proof fn law_moves_carry_the_distances(dx: i32, dy: i32)
    ensures
        ({
            let batch = mouse_move(dx, dy);
            &&& batch.len() == 3
            &&& batch[0].event_type == 2 && batch[0].code == 0 && batch[0].value == dx
            &&& batch[1].event_type == 2 && batch[1].code == 1 && batch[1].value == dy
            &&& batch[2].event_type == 0 && batch[2].code == 0 && batch[2].value == 0
        }),
{
}

} // verus!
