//! Key handling: turning an up/down key pair into a signed step.
//!
//! The window shell hands key events over as plain values — which key, with
//! which modifiers, pressed or released — and the library decides whether an
//! action fires and with which step.

use vstd::prelude::*;

verus! {

/// The modifier keys held during an event.
#[derive(Clone, Copy, PartialEq, Eq, Debug, Default, Structural)]
pub struct KeyModifiers {
    pub alt: bool,
    pub ctrl: bool,
    pub shift: bool,
    pub mac_cmd: bool,
    pub command: bool,
}

impl KeyModifiers {
    /// No modifier is held.
    pub fn is_none(&self) -> (r: bool)
        ensures
            r == (!self.alt && !self.ctrl && !self.shift && !self.mac_cmd && !self.command),
    {
        !self.alt && !self.ctrl && !self.shift && !self.mac_cmd && !self.command
    }

    /// Only the command modifier is held.
    pub fn command_only(&self) -> (r: bool)
        ensures
            r == (!self.alt && !self.shift && self.command),
    {
        !self.alt && !self.shift && self.command
    }

    /// Only the shift modifier is held.
    pub fn shift_only(&self) -> (r: bool)
        ensures
            r == (self.shift && !self.alt && !self.ctrl && !self.mac_cmd && !self.command),
    {
        self.shift && !self.alt && !self.ctrl && !self.mac_cmd && !self.command
    }
}

/// One key event as the shell reports it: a key code, its modifiers, and
/// whether this is a press.
#[derive(Clone, Copy, PartialEq, Eq, Debug, Structural)]
pub struct KeyEvent {
    pub key: u32,
    pub modifiers: KeyModifiers,
    pub pressed: bool,
    pub repeat: bool,
}

/// Which way an up/down pair steps: the up key steps back, anything else
/// that fires steps forward; an event matching both keys counts as up.
pub open spec fn spec_key_step(event: KeyEvent, up: u32, down: u32) -> i8 {
    if event.key == up {
        -1i8
    } else {
        1i8
    }
}

/// Whether a key event can fire an up/down action at all: handling is
/// enabled, the key is pressed, and it is one of the pair.
pub open spec fn spec_key_fires(enable: bool, event: KeyEvent, up: u32, down: u32) -> bool {
    enable && event.pressed && (event.key == up || event.key == down)
}

/// Run `action` with the pair's step when the pressed event matches the pair
/// and its modifiers pass the test; hand back what the action returned, or
/// nothing when the event did not fire.
pub fn handle_key_to_option<M: FnOnce(KeyModifiers) -> bool, F: FnOnce(i8) -> R, R>(
    enable: bool,
    event: &KeyEvent,
    up: u32,
    down: u32,
    modifiers_p: M,
    action: F,
) -> (r: Option<R>)
    requires
        spec_key_fires(enable, *event, up, down) ==> call_requires(
            modifiers_p,
            (event.modifiers,),
        ) && call_requires(action, (spec_key_step(*event, up, down),)),
    ensures
        r matches Some(v) ==> spec_key_fires(enable, *event, up, down) && call_ensures(
            modifiers_p,
            (event.modifiers,),
            true,
        ) && call_ensures(action, (spec_key_step(*event, up, down),), v),
        r is None && spec_key_fires(enable, *event, up, down) ==> call_ensures(
            modifiers_p,
            (event.modifiers,),
            false,
        ),
        !spec_key_fires(enable, *event, up, down) ==> r is None,
{
    if enable && event.pressed {
        let step: i8 = if event.key == up {
            -1
        } else if event.key == down {
            1
        } else {
            return None;
        };
        if modifiers_p(event.modifiers) {
            return Some(action(step));
        }
    }
    None
}

/// Like `handle_key_to_option`, for actions that report whether they changed
/// anything: an event that did not fire changed nothing.
pub fn handle_key<M: FnOnce(KeyModifiers) -> bool, F: FnOnce(i8) -> bool>(
    enable: bool,
    event: &KeyEvent,
    up: u32,
    down: u32,
    modifiers_p: M,
    action: F,
) -> (r: bool)
    requires
        spec_key_fires(enable, *event, up, down) ==> call_requires(
            modifiers_p,
            (event.modifiers,),
        ) && call_requires(action, (spec_key_step(*event, up, down),)),
    ensures
        r ==> spec_key_fires(enable, *event, up, down) && call_ensures(
            modifiers_p,
            (event.modifiers,),
            true,
        ) && call_ensures(action, (spec_key_step(*event, up, down),), true),
{
    match handle_key_to_option(enable, event, up, down, modifiers_p, action) {
        Some(v) => v,
        None => false,
    }
}

} // verus!
