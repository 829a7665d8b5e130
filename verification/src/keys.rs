//! Key and button codes of the Linux input subsystem, and the part that each
//! key plays in steering the mouse.

use vstd::prelude::*;

verus! {

pub const KEY_LEFTCTRL: u16 = 29;

pub const KEY_A: u16 = 30;

pub const KEY_LEFTSHIFT: u16 = 42;

pub const KEY_RIGHTSHIFT: u16 = 54;

pub const KEY_KPASTERISK: u16 = 55;

pub const KEY_NUMLOCK: u16 = 69;

pub const KEY_KP7: u16 = 71;

pub const KEY_KP8: u16 = 72;

pub const KEY_KP9: u16 = 73;

pub const KEY_KPMINUS: u16 = 74;

pub const KEY_KP4: u16 = 75;

pub const KEY_KP5: u16 = 76;

pub const KEY_KP6: u16 = 77;

pub const KEY_KPPLUS: u16 = 78;

pub const KEY_KP1: u16 = 79;

pub const KEY_KP2: u16 = 80;

pub const KEY_KP3: u16 = 81;

pub const KEY_KP0: u16 = 82;

pub const KEY_KPDOT: u16 = 83;

pub const KEY_RIGHTCTRL: u16 = 97;

pub const KEY_KPSLASH: u16 = 98;

pub const BTN_LEFT: u16 = 0x110;

pub const BTN_RIGHT: u16 = 0x111;

pub const BTN_MIDDLE: u16 = 0x112;

/// The light that shows whether NumLock is on.
pub const LED_NUML: u16 = 0;

/// The keys around the middle of the numpad, which move the mouse.
pub open spec fn moves_mouse(code: u16) -> bool {
    ||| code == KEY_KP1
    ||| code == KEY_KP2
    ||| code == KEY_KP3
    ||| code == KEY_KP4
    ||| code == KEY_KP6
    ||| code == KEY_KP7
    ||| code == KEY_KP8
    ||| code == KEY_KP9
}

/// The keys that work the mouse buttons: select one, click, hold, release.
pub open spec fn works_button(code: u16) -> bool {
    ||| code == KEY_KPSLASH
    ||| code == KEY_KPASTERISK
    ||| code == KEY_KPMINUS
    ||| code == KEY_KP5
    ||| code == KEY_KPPLUS
    ||| code == KEY_KP0
    ||| code == KEY_KPDOT
}

/// The keys that steer the mouse, one way or the other.
pub open spec fn steers_mouse(code: u16) -> bool {
    moves_mouse(code) || works_button(code)
}

/// Every key of the numpad that steers the mouse.
pub open spec fn numpad() -> Seq<u16> {
    seq![
        KEY_KP1,
        KEY_KP2,
        KEY_KP3,
        KEY_KP4,
        KEY_KP5,
        KEY_KP6,
        KEY_KP7,
        KEY_KP8,
        KEY_KP9,
        KEY_KP0,
        KEY_KPDOT,
        KEY_KPPLUS,
        KEY_KPMINUS,
        KEY_KPASTERISK,
        KEY_KPSLASH,
    ]
}

/// Whether the key `code` moves the mouse.
pub fn is_movement_key(code: u16) -> (moves: bool)
    ensures
        moves == moves_mouse(code),
{
    code == KEY_KP1 || code == KEY_KP2 || code == KEY_KP3 || code == KEY_KP4 || code == KEY_KP6
        || code == KEY_KP7 || code == KEY_KP8 || code == KEY_KP9
}

/// Whether the key `code` steers the mouse.
pub fn is_mouse_key(code: u16) -> (steers: bool)
    ensures
        steers == steers_mouse(code),
{
    is_movement_key(code) || code == KEY_KPSLASH || code == KEY_KPASTERISK || code == KEY_KPMINUS
        || code == KEY_KP5 || code == KEY_KPPLUS || code == KEY_KP0 || code == KEY_KPDOT
}

/// Every key of the numpad that steers the mouse.
pub fn numpad_keys() -> (keys: Vec<u16>)
    ensures
        keys@ == numpad(),
{
    vec![
        KEY_KP1,
        KEY_KP2,
        KEY_KP3,
        KEY_KP4,
        KEY_KP5,
        KEY_KP6,
        KEY_KP7,
        KEY_KP8,
        KEY_KP9,
        KEY_KP0,
        KEY_KPDOT,
        KEY_KPPLUS,
        KEY_KPMINUS,
        KEY_KPASTERISK,
        KEY_KPSLASH,
    ]
}

/// The numpad, as listed, holds exactly the keys that steer the mouse, each
/// once.
pub proof fn law_numpad_is_what_steers(code: u16)
    ensures
        numpad().contains(code) <==> steers_mouse(code),
        numpad().no_duplicates(),
        numpad().len() == 15,
{
    if steers_mouse(code) {
        let i: int = if code == KEY_KP1 {
            0
        } else if code == KEY_KP2 {
            1
        } else if code == KEY_KP3 {
            2
        } else if code == KEY_KP4 {
            3
        } else if code == KEY_KP5 {
            4
        } else if code == KEY_KP6 {
            5
        } else if code == KEY_KP7 {
            6
        } else if code == KEY_KP8 {
            7
        } else if code == KEY_KP9 {
            8
        } else if code == KEY_KP0 {
            9
        } else if code == KEY_KPDOT {
            10
        } else if code == KEY_KPPLUS {
            11
        } else if code == KEY_KPMINUS {
            12
        } else if code == KEY_KPASTERISK {
            13
        } else {
            14
        };
        assert(numpad()[i] == code);
    }
}

/// The numpad by the codes of its keys: three rows of movement keys, but for
/// the one in the middle, and the keys that work the buttons around them.
pub proof fn law_numpad_codes(code: u16)
    ensures
        moves_mouse(code) <==> 71 <= code <= 73 || code == 75 || code == 77 || 79 <= code <= 81,
        works_button(code) <==> code == 55 || code == 74 || code == 76 || code == 78 || code == 82
            || code == 83 || code == 98,
        steers_mouse(code) <==> moves_mouse(code) || works_button(code),
        !(moves_mouse(code) && works_button(code)),
{
}

} // verus!
