//! Moving the mouse: which of the movement keys are held, and where that
//! takes it.

use std::collections::HashSet;
use vstd::prelude::*;
use crate::config::{Config, Settings};
use crate::keys::{
    moves_mouse, KEY_KP1, KEY_KP2, KEY_KP3, KEY_KP4, KEY_KP6, KEY_KP7, KEY_KP8, KEY_KP9,
};

verus! {

/// The keys that change the speed.
#[derive(Debug, Clone, Copy, PartialEq, Eq, Structural)]
pub enum ModifierKey {
    LeftShift,
    RightShift,
    LeftCtrl,
    RightCtrl,
}

/// A modifier going down or up.
#[derive(Debug, Clone, Copy, PartialEq, Eq, Structural)]
pub struct ModifierChange {
    pub key: ModifierKey,
    pub down: bool,
}

/// The modifiers that are held, key by key.
#[derive(Debug, Clone, Copy, PartialEq, Eq, Structural)]
pub struct Modifiers {
    pub left_shift: bool,
    pub right_shift: bool,
    pub left_ctrl: bool,
    pub right_ctrl: bool,
}

impl Default for Modifiers {
    fn default() -> (modifiers: Self)
        ensures
            modifiers == Modifiers::none(),
    {
        Modifiers { left_shift: false, right_shift: false, left_ctrl: false, right_ctrl: false }
    }
}

/// The speed that goes with the modifiers: Ctrl is fast, Shift is slow, and
/// Ctrl outweighs Shift.
pub open spec fn speed(modifiers: Modifiers, settings: Settings) -> i32 {
    if modifiers.ctrl() {
        settings.vmax_fast
    } else if modifiers.shift() {
        settings.vmax_slow
    } else {
        settings.vmax_normal
    }
}

/// With a modifier the mouse has its speed at once. Without one it picks the
/// speed up gradually.
pub open spec fn is_linear(modifiers: Modifiers) -> bool {
    modifiers.ctrl() || modifiers.shift()
}

impl Modifiers {
    /// No modifier is held.
    pub open spec fn none() -> Modifiers {
        Modifiers { left_shift: false, right_shift: false, left_ctrl: false, right_ctrl: false }
    }

    /// A Shift key is held.
    pub open spec fn shift(self) -> bool {
        self.left_shift || self.right_shift
    }

    /// A Ctrl key is held.
    pub open spec fn ctrl(self) -> bool {
        self.left_ctrl || self.right_ctrl
    }

    /// The key is held.
    pub open spec fn is_down(self, key: ModifierKey) -> bool {
        match key {
            ModifierKey::LeftShift => self.left_shift,
            ModifierKey::RightShift => self.right_shift,
            ModifierKey::LeftCtrl => self.left_ctrl,
            ModifierKey::RightCtrl => self.right_ctrl,
        }
    }

    /// The modifiers after one of them changed.
    pub open spec fn changed(self, change: ModifierChange) -> Modifiers {
        match change.key {
            ModifierKey::LeftShift => Modifiers { left_shift: change.down, ..self },
            ModifierKey::RightShift => Modifiers { right_shift: change.down, ..self },
            ModifierKey::LeftCtrl => Modifiers { left_ctrl: change.down, ..self },
            ModifierKey::RightCtrl => Modifiers { right_ctrl: change.down, ..self },
        }
    }

    pub fn apply(&mut self, change: ModifierChange)
        ensures
            *final(self) == old(self).changed(change),
    {
        match change.key {
            ModifierKey::LeftShift => {
                self.left_shift = change.down;
            },
            ModifierKey::RightShift => {
                self.right_shift = change.down;
            },
            ModifierKey::LeftCtrl => {
                self.left_ctrl = change.down;
            },
            ModifierKey::RightCtrl => {
                self.right_ctrl = change.down;
            },
        }
    }

    /// Lets go of every modifier.
    pub fn clear(&mut self)
        ensures
            *final(self) == Modifiers::none(),
    {
        *self = Modifiers::default();
    }

    /// Whether a Shift key is held.
    pub fn holds_shift(&self) -> (held: bool)
        ensures
            held == self.shift(),
    {
        self.left_shift || self.right_shift
    }

    /// Whether a Ctrl key is held.
    pub fn holds_ctrl(&self) -> (held: bool)
        ensures
            held == self.ctrl(),
    {
        self.left_ctrl || self.right_ctrl
    }

    pub fn effective_vmax(&self, config: &Config) -> (vmax: i32)
        ensures
            vmax == speed(*self, config@),
            self.left_ctrl || self.right_ctrl ==> vmax == config.vmax_fast,
            !self.left_ctrl && !self.right_ctrl && (self.left_shift || self.right_shift) ==> vmax
                == config.vmax_slow,
            !self.left_ctrl && !self.right_ctrl && !self.left_shift && !self.right_shift ==> vmax
                == config.vmax_normal,
    {
        if self.holds_ctrl() {
            config.vmax_fast
        } else if self.holds_shift() {
            config.vmax_slow
        } else {
            config.vmax_normal
        }
    }
}

/// The movement keys that are held, and the modifiers with them.
#[derive(Debug)]
pub struct MouseMoveState {
    pressed_keys: HashSet<u16>,
    active: bool,
    modifiers: Modifiers,
}

/// What a `MouseMoveState` says.
#[verifier::ext_equal]
pub struct Motion {
    /// The keys that are held.
    pub pressed: Set<u16>,
    /// Whether the mouse is to move.
    pub active: bool,
    pub modifiers: Modifiers,
}

impl View for MouseMoveState {
    type V = Motion;

    closed spec fn view(&self) -> Motion {
        Motion { pressed: self.pressed_keys@, active: self.active, modifiers: self.modifiers }
    }
}

impl Motion {
    /// No key is held.
    pub open spec fn at_rest() -> Motion {
        Motion {
            pressed: Set::empty(),
            active: false,
            modifiers: Modifiers::none(),
        }
    }

    /// Only movement keys are held, and the mouse is to move exactly while at
    /// least one is.
    pub open spec fn consistent(self) -> bool {
        &&& forall|code: u16| #[trigger] self.pressed.contains(code) ==> moves_mouse(code)
        &&& self.active <==> self.pressed != Set::<u16>::empty()
    }

    /// After `modifiers` were taken over.
    pub open spec fn with_modifiers(self, modifiers: Modifiers) -> Motion {
        Motion { modifiers, ..self }
    }

    /// After the key `code` went down.
    pub open spec fn after_press(self, code: u16) -> Motion {
        if moves_mouse(code) {
            Motion { pressed: self.pressed.insert(code), active: true, ..self }
        } else {
            self
        }
    }

    /// After the key `code` went up.
    pub open spec fn after_release(self, code: u16) -> Motion {
        let pressed = self.pressed.remove(code);
        Motion { pressed, active: self.active && pressed != Set::<u16>::empty(), ..self }
    }

    /// After every key was let go of.
    pub open spec fn let_go(self) -> Motion {
        Motion { pressed: Set::empty(), active: false, ..self }
    }

    /// After it was settled whether the numpad steers the mouse: unless it
    /// does, every key is let go of.
    pub open spec fn settled(self, mousekeys_enabled: bool) -> Motion {
        if mousekeys_enabled {
            self
        } else {
            self.let_go()
        }
    }
}

/// 1 if `code` is held, else 0.
pub open spec fn held(pressed: Set<u16>, code: u16) -> int {
    if pressed.contains(code) {
        1
    } else {
        0
    }
}

/// How far to the right the held keys point: each key on the right of the
/// numpad counts for it, each on the left against it.
pub open spec fn rightward(pressed: Set<u16>) -> int {
    held(pressed, KEY_KP3) + held(pressed, KEY_KP6) + held(pressed, KEY_KP9) - held(
        pressed,
        KEY_KP1,
    ) - held(pressed, KEY_KP4) - held(pressed, KEY_KP7)
}

/// How far down the held keys point: each key in the bottom row counts for
/// it, each in the top row against it.
pub open spec fn downward(pressed: Set<u16>) -> int {
    held(pressed, KEY_KP1) + held(pressed, KEY_KP2) + held(pressed, KEY_KP3) - held(
        pressed,
        KEY_KP7,
    ) - held(pressed, KEY_KP8) - held(pressed, KEY_KP9)
}

/// Where the mouse goes next.
#[derive(Debug, Clone, Copy, PartialEq, Eq, Structural)]
pub struct MovePlan {
    /// How far to the right the keys point.
    pub dx: i32,
    /// How far down the keys point.
    pub dy: i32,
    /// The speed to reach.
    pub vmax: i32,
    /// Whether the mouse has that speed at once, or picks it up gradually.
    pub linear: bool,
}

impl Default for MouseMoveState {
    fn default() -> (state: Self)
        ensures
            state@ == Motion::at_rest(),
    {
        let state = MouseMoveState {
            pressed_keys: HashSet::new(),
            active: false,
            modifiers: Modifiers::default(),
        };
        assert(state@ =~= Motion::at_rest());
        state
    }
}

impl MouseMoveState {
    /// Whether the mouse is to move.
    pub fn is_active(&self) -> (active: bool)
        ensures
            active == self@.active,
    {
        self.active
    }

    /// The modifiers as they were last taken over.
    pub fn modifiers(&self) -> (modifiers: Modifiers)
        ensures
            modifiers == self@.modifiers,
    {
        self.modifiers
    }

    /// Whether the key `code` is held.
    pub fn is_pressed(&self, code: u16) -> (pressed: bool)
        ensures
            pressed == self@.pressed.contains(code),
    {
        self.pressed_keys.contains(&code)
    }

    pub fn set_modifiers(&mut self, modifiers: Modifiers)
        ensures
            final(self)@ == old(self)@.with_modifiers(modifiers),
            old(self)@.consistent() ==> final(self)@.consistent(),
    {
        self.modifiers = modifiers;
        assert(self@.pressed == old(self)@.pressed);
    }

    /// Takes over that the key `code` went down. Returns whether the mouse
    /// must start from a halt.
    pub fn press(&mut self, code: u16) -> (halt: bool)
        ensures
            final(self)@ == old(self)@.after_press(code),
            halt == moves_mouse(code),
            old(self)@.consistent() ==> final(self)@.consistent(),
    {
        if crate::keys::is_movement_key(code) {
            self.pressed_keys.insert(code);
            self.active = true;
            assert(self@.pressed.contains(code));
            assert(self@ =~= old(self)@.after_press(code));
            true
        } else {
            false
        }
    }

    /// Takes over that the key `code` went up.
    pub fn release(&mut self, code: u16)
        ensures
            final(self)@ == old(self)@.after_release(code),
            old(self)@.consistent() ==> final(self)@.consistent(),
    {
        self.pressed_keys.remove(&code);
        if self.pressed_keys.is_empty() {
            self.active = false;
        }
        assert(self@ =~= old(self)@.after_release(code));
    }

    /// Lets go of every key.
    pub fn clear(&mut self)
        ensures
            final(self)@ == old(self)@.let_go(),
            final(self)@.consistent(),
    {
        self.pressed_keys.clear();
        self.active = false;
        assert(self@ =~= old(self)@.let_go());
    }

    /// Where the held keys take the mouse.
    pub fn plan(&self, modifiers: Modifiers, config: &Config) -> (plan: MovePlan)
        ensures
            plan.dx == rightward(self@.pressed),
            plan.dy == downward(self@.pressed),
            plan.vmax == speed(modifiers, config@),
            plan.linear == is_linear(modifiers),
    {
        let mut dx: i32 = 0;
        let mut dy: i32 = 0;
        let ghost mut seen: Set<u16> = Set::empty();
        for key in it: self.pressed_keys.iter()
            invariant
                it.seq().no_duplicates(),
                it.seq().unref().to_set() == self.pressed_keys@,
                it.seq().unref().take(it.seq().len() as int) == it.seq().unref(),
                seen == it.seq().unref().take(it.index() as int).to_set(),
                dx == rightward(seen),
                dy == downward(seen),
        {
            let code: u16 = *key;
            if code == KEY_KP1 {
                dx = dx - 1;
                dy = dy + 1;
            } else if code == KEY_KP2 {
                dy = dy + 1;
            } else if code == KEY_KP3 {
                dx = dx + 1;
                dy = dy + 1;
            } else if code == KEY_KP4 {
                dx = dx - 1;
            } else if code == KEY_KP6 {
                dx = dx + 1;
            } else if code == KEY_KP7 {
                dx = dx - 1;
                dy = dy - 1;
            } else if code == KEY_KP8 {
                dy = dy - 1;
            } else if code == KEY_KP9 {
                dx = dx + 1;
                dy = dy - 1;
            }
            proof {
                let keys = it.seq().unref();
                let i = it.index() as int;
                assert(keys[i] == code);
                if seen.contains(code) {
                    let j = choose|j: int| 0 <= j < i && keys.take(i)[j] == code;
                    assert(it.seq()[j] == it.seq()[i]);
                }
                assert(keys.take(i + 1) == keys.take(i).push(code));
                assert forall|c: u16|
                    keys.take(i + 1).to_set().contains(c) == seen.insert(code).contains(c) by {
                    if c == code {
                        assert(keys.take(i + 1)[i] == c);
                    }
                    if keys.take(i).contains(c) {
                        let j = choose|j: int| 0 <= j < i && keys.take(i)[j] == c;
                        assert(keys.take(i + 1)[j] == c);
                    }
                }
                seen = seen.insert(code);
                assert(seen =~= keys.take(i + 1).to_set());
            }
        }
        assert(seen =~= self.pressed_keys@);
        MovePlan {
            dx,
            dy,
            vmax: modifiers.effective_vmax(config),
            linear: modifiers.holds_ctrl() || modifiers.holds_shift(),
        }
    }

    /// Where the mouse goes next, if it is to move.
    pub fn next_move(&self, modifiers: Modifiers, config: &Config) -> (next: Option<MovePlan>)
        ensures
            next is Some <==> self@.active,
            next matches Some(plan) ==> {
                &&& plan.dx == rightward(self@.pressed)
                &&& plan.dy == downward(self@.pressed)
                &&& plan.vmax == speed(modifiers, config@)
                &&& plan.linear == is_linear(modifiers)
            },
    {
        if self.active {
            Some(self.plan(modifiers, config))
        } else {
            None
        }
    }
}

/// Whatever key goes down or up, only movement keys are held, and the mouse
/// is to move exactly while at least one is.
pub proof fn law_motion_stays_consistent(motion: Motion, code: u16)
    requires
        motion.consistent(),
    ensures
        motion.after_press(code).consistent(),
        motion.after_release(code).consistent(),
        motion.let_go().consistent(),
        forall|modifiers: Modifiers| #[trigger] motion.with_modifiers(modifiers).consistent(),
{
    assert(motion.after_press(code).pressed.contains(code) || !moves_mouse(code));
    assert(Set::<u16>::empty().remove(code) =~= Set::<u16>::empty());
    assert forall|modifiers: Modifiers| #[trigger]
        motion.with_modifiers(modifiers).consistent() by {
        assert(motion.with_modifiers(modifiers).pressed == motion.pressed);
    }
}

/// Pressing a key that is not held and letting it go again leaves everything
/// as it was.
pub proof fn law_release_undoes_press(motion: Motion, code: u16)
    requires
        motion.consistent(),
        !motion.pressed.contains(code),
    ensures
        motion.after_press(code).after_release(code) == motion,
{
    assert(motion.pressed.insert(code).remove(code) =~= motion.pressed);
    assert(motion.pressed.remove(code) =~= motion.pressed);
    assert(motion.after_press(code).after_release(code) =~= motion);
}

/// The key on the other side of the numpad.
pub open spec fn opposite(code: u16) -> u16 {
    if code == KEY_KP1 {
        KEY_KP9
    } else if code == KEY_KP2 {
        KEY_KP8
    } else if code == KEY_KP3 {
        KEY_KP7
    } else if code == KEY_KP4 {
        KEY_KP6
    } else if code == KEY_KP6 {
        KEY_KP4
    } else if code == KEY_KP7 {
        KEY_KP3
    } else if code == KEY_KP8 {
        KEY_KP2
    } else {
        KEY_KP1
    }
}

/// Two keys on opposite sides of the numpad cancel each other.
pub proof fn law_opposite_keys_cancel(pressed: Set<u16>, code: u16)
    requires
        moves_mouse(code),
        !pressed.contains(code),
        !pressed.contains(opposite(code)),
    ensures
        rightward(pressed.insert(code).insert(opposite(code))) == rightward(pressed),
        downward(pressed.insert(code).insert(opposite(code))) == downward(pressed),
{
}

/// Each movement key alone moves the mouse into a direction of its own, the
/// one in which it lies from the middle of the numpad.
pub proof fn law_eight_directions(code: u16)
    ensures
        ({
            let only = Set::<u16>::empty().insert(code);
            let direction = (rightward(only), downward(only));
            &&& code == KEY_KP1 ==> direction == (-1int, 1int)
            &&& code == KEY_KP2 ==> direction == (0int, 1int)
            &&& code == KEY_KP3 ==> direction == (1int, 1int)
            &&& code == KEY_KP4 ==> direction == (-1int, 0int)
            &&& code == KEY_KP6 ==> direction == (1int, 0int)
            &&& code == KEY_KP7 ==> direction == (-1int, -1int)
            &&& code == KEY_KP8 ==> direction == (0int, -1int)
            &&& code == KEY_KP9 ==> direction == (1int, -1int)
            &&& !moves_mouse(code) ==> direction == (0int, 0int)
        }),
{
}

/// However many keys are held, the direction stays small.
pub proof fn law_direction_is_bounded(pressed: Set<u16>)
    ensures
        -3 <= rightward(pressed) <= 3,
        -3 <= downward(pressed) <= 3,
{
}

/// There are three modes: fast and linear while a Ctrl key is held, with or
/// without Shift; slow and linear while a Shift key is held and no Ctrl key;
/// and the normal one, which speeds up gradually, while neither is.
pub proof fn law_three_modes(settings: Settings, modifiers: Modifiers)
    ensures
        modifiers.is_down(ModifierKey::LeftCtrl) || modifiers.is_down(ModifierKey::RightCtrl) ==> {
            &&& speed(modifiers, settings) == settings.vmax_fast
            &&& is_linear(modifiers)
        },
        !modifiers.ctrl() && (modifiers.is_down(ModifierKey::LeftShift) || modifiers.is_down(
            ModifierKey::RightShift,
        )) ==> {
            &&& speed(modifiers, settings) == settings.vmax_slow
            &&& is_linear(modifiers)
        },
        !modifiers.ctrl() && !modifiers.shift() ==> {
            &&& speed(modifiers, settings) == settings.vmax_normal
            &&& !is_linear(modifiers)
        },
{
}

/// A modifier that goes down and up again leaves no trace, and one key does
/// not touch another.
pub proof fn law_modifier_release_undoes_press(
    modifiers: Modifiers,
    key: ModifierKey,
    other: ModifierKey,
    down: bool,
)
    ensures
        !modifiers.is_down(key) ==> modifiers.changed(ModifierChange { key, down: true }).changed(
            ModifierChange { key, down: false },
        ) == modifiers,
        modifiers.changed(ModifierChange { key, down }).is_down(key) == down,
        other != key ==> modifiers.changed(ModifierChange { key, down }).is_down(other)
            == modifiers.is_down(other),
{
}

/// How far to the right the key `code` lies from the middle of the numpad.
pub open spec fn column(code: u16) -> int {
    if code == KEY_KP3 || code == KEY_KP6 || code == KEY_KP9 {
        1
    } else if code == KEY_KP1 || code == KEY_KP4 || code == KEY_KP7 {
        -1
    } else {
        0
    }
}

/// How far down the key `code` lies from the middle of the numpad.
pub open spec fn row(code: u16) -> int {
    if code == KEY_KP1 || code == KEY_KP2 || code == KEY_KP3 {
        1
    } else if code == KEY_KP7 || code == KEY_KP8 || code == KEY_KP9 {
        -1
    } else {
        0
    }
}

/// With no key held the mouse goes nowhere, and each key that is held besides
/// others adds the direction in which it lies, whichever those are.
pub proof fn law_directions_add_up(pressed: Set<u16>, code: u16)
    requires
        !pressed.contains(code),
    ensures
        rightward(Set::empty()) == 0,
        downward(Set::empty()) == 0,
        rightward(pressed.insert(code)) == rightward(pressed) + column(code),
        downward(pressed.insert(code)) == downward(pressed) + row(code),
{
}

/// Letting go of a held key takes away the direction in which it lies,
/// whichever keys stay held.
pub proof fn law_directions_are_taken_away(pressed: Set<u16>, code: u16)
    requires
        pressed.contains(code),
    ensures
        rightward(pressed.remove(code)) == rightward(pressed) - column(code),
        downward(pressed.remove(code)) == downward(pressed) - row(code),
{
}

/// The numpad mirrored: keys on the left become those on the right, and keys
/// at the top those at the bottom.
pub proof fn law_directions_mirror(pressed: Set<u16>, mirrored: Set<u16>)
    requires
        forall|code: u16|
            moves_mouse(code) ==> (#[trigger] pressed.contains(code) <==> mirrored.contains(
                opposite(code),
            )),
    ensures
        rightward(mirrored) == -rightward(pressed),
        downward(mirrored) == -downward(pressed),
{
    assert(pressed.contains(KEY_KP1) <==> mirrored.contains(KEY_KP9));
    assert(pressed.contains(KEY_KP2) <==> mirrored.contains(KEY_KP8));
    assert(pressed.contains(KEY_KP3) <==> mirrored.contains(KEY_KP7));
    assert(pressed.contains(KEY_KP4) <==> mirrored.contains(KEY_KP6));
    assert(pressed.contains(KEY_KP6) <==> mirrored.contains(KEY_KP4));
    assert(pressed.contains(KEY_KP7) <==> mirrored.contains(KEY_KP3));
    assert(pressed.contains(KEY_KP8) <==> mirrored.contains(KEY_KP2));
    assert(pressed.contains(KEY_KP9) <==> mirrored.contains(KEY_KP1));
}

/// Pressing a movement key makes it held and the mouse move; letting a key go
/// makes it not held, and the mouse stops with the last one; no other key is
/// touched, and neither are the modifiers.
pub proof fn law_one_key_at_a_time(motion: Motion, code: u16, other: u16)
    ensures
        motion.after_press(code).pressed.contains(other) <==> motion.pressed.contains(other) || (
        other == code && moves_mouse(code)),
        motion.after_press(code).active <==> motion.active || moves_mouse(code),
        motion.after_press(code).modifiers == motion.modifiers,
        motion.after_release(code).pressed.contains(other) <==> motion.pressed.contains(other)
            && other != code,
        motion.after_release(code).active <==> motion.active && exists|left: u16|
            #[trigger] motion.pressed.contains(left) && left != code,
        motion.after_release(code).modifiers == motion.modifiers,
{
    let left = motion.pressed.remove(code);
    if exists|k: u16| #[trigger] motion.pressed.contains(k) && k != code {
        let k = choose|k: u16| #[trigger] motion.pressed.contains(k) && k != code;
        assert(left.contains(k));
    } else {
        assert(left =~= Set::<u16>::empty());
    }
}

/// Letting go of every key leaves none held and the mouse still. While the
/// numpad steers the mouse nothing is let go of. The modifiers are left alone,
/// unless they are what is taken over.
pub proof fn law_letting_go(motion: Motion, modifiers: Modifiers, code: u16)
    ensures
        !motion.let_go().pressed.contains(code),
        !motion.let_go().active,
        motion.let_go().modifiers == motion.modifiers,
        motion.settled(true) == motion,
        motion.settled(false) == motion.let_go(),
        motion.with_modifiers(modifiers).pressed == motion.pressed,
        motion.with_modifiers(modifiers).active == motion.active,
        motion.with_modifiers(modifiers).modifiers == modifiers,
        !Motion::at_rest().pressed.contains(code),
        !Motion::at_rest().active,
        Motion::at_rest().modifiers == Modifiers::none(),
{
}

/// The modifiers field by field: what counts as held, what a change changes,
/// and what speed goes with them.
pub proof fn law_modifiers_field_by_field(m: Modifiers, settings: Settings, down: bool)
    ensures
        m.shift() <==> m.left_shift || m.right_shift,
        m.ctrl() <==> m.left_ctrl || m.right_ctrl,
        !Modifiers::none().left_shift && !Modifiers::none().right_shift,
        !Modifiers::none().left_ctrl && !Modifiers::none().right_ctrl,
        m.changed(ModifierChange { key: ModifierKey::LeftShift, down }) == (Modifiers {
            left_shift: down,
            right_shift: m.right_shift,
            left_ctrl: m.left_ctrl,
            right_ctrl: m.right_ctrl,
        }),
        m.changed(ModifierChange { key: ModifierKey::RightShift, down }) == (Modifiers {
            left_shift: m.left_shift,
            right_shift: down,
            left_ctrl: m.left_ctrl,
            right_ctrl: m.right_ctrl,
        }),
        m.changed(ModifierChange { key: ModifierKey::LeftCtrl, down }) == (Modifiers {
            left_shift: m.left_shift,
            right_shift: m.right_shift,
            left_ctrl: down,
            right_ctrl: m.right_ctrl,
        }),
        m.changed(ModifierChange { key: ModifierKey::RightCtrl, down }) == (Modifiers {
            left_shift: m.left_shift,
            right_shift: m.right_shift,
            left_ctrl: m.left_ctrl,
            right_ctrl: down,
        }),
        is_linear(m) <==> m.left_shift || m.right_shift || m.left_ctrl || m.right_ctrl,
        m.left_ctrl || m.right_ctrl ==> speed(m, settings) == settings.vmax_fast,
        !m.left_ctrl && !m.right_ctrl && (m.left_shift || m.right_shift) ==> speed(m, settings)
            == settings.vmax_slow,
        !is_linear(m) ==> speed(m, settings) == settings.vmax_normal,
{
}

} // verus!
