//! The sets of codes in which `evdev` says what a device can do and what
//! state it is in.

use vstd::prelude::*;

verus! {

/// `evdev::AttributeSetRef`: a set of codes of one kind.
#[verifier::external_type_specification]
#[verifier::external_body]
#[verifier::reject_recursive_types(T)]
pub struct ExAttributeSetRef<T>(evdev::AttributeSetRef<T>);

/// `evdev::KeyCode`: the kind of the codes of keys and buttons.
#[verifier::external_type_specification]
#[verifier::external_body]
pub struct ExKeyCode(evdev::KeyCode);

/// `evdev::LedCode`: the kind of the codes of lights.
#[verifier::external_type_specification]
#[verifier::external_body]
pub struct ExLedCode(evdev::LedCode);

/// The codes in a set of keys.
pub uninterp spec fn key_codes(keys: &evdev::AttributeSetRef<evdev::KeyCode>) -> Set<u16>;

/// The codes in a set of lights.
pub uninterp spec fn led_codes(leds: &evdev::AttributeSetRef<evdev::LedCode>) -> Set<u16>;

/// `evdev::AttributeSetRef::contains` on a set of keys: whether the code is
/// in the set. A code beyond the end of the set is not in it.
#[verifier::external_body]
pub(crate) fn has_key(keys: &evdev::AttributeSetRef<evdev::KeyCode>, code: u16) -> (found: bool)
    ensures
        found == key_codes(keys).contains(code),
{
    keys.contains(evdev::KeyCode(code))
}

/// `evdev::AttributeSetRef::contains` on a set of lights: whether the code is
/// in the set. A code beyond the end of the set is not in it.
#[verifier::external_body]
pub(crate) fn has_led(leds: &evdev::AttributeSetRef<evdev::LedCode>, code: u16) -> (found: bool)
    ensures
        found == led_codes(leds).contains(code),
{
    leds.contains(evdev::LedCode(code))
}

} // verus!
