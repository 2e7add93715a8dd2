//! Listening for hotkeys.
//!
//! Macros are useless if one has to switch windows to start them, so key presses
//! are watched system-wide.

use crate::macroeng::keys::Key;
use crate::text::{contains_text, occurs};
use vstd::prelude::*;

pub use crate::macroeng::keys::{key_from_evdev, key_from_vk};

verus! {

/// What the listener reports. A release matters for macros that run while their
/// key is held.
#[derive(Debug, Clone, Copy, PartialEq, Eq, Structural)]
pub enum HotkeyEvent {
    Pressed(Key),
    Released(Key),
}

/// A listener, running until it is stopped.
pub struct Listener {
    pub stopped: bool,
}

impl Listener {
    /// A listener, where it could be started on one device at least.
    pub fn spawn(started: usize) -> (r: Option<Listener>)
        ensures
            match r {
                Some(l) => started > 0 && !l.stopped,
                None => started == 0,
            },
    {
        if started == 0 {
            None
        } else {
            Some(Listener { stopped: false })
        }
    }

    pub fn stop(&mut self)
        ensures
            final(self).stopped,
    {
        self.stopped = true;
    }
}

/// Whether a device is watched: a keyboard, and not the one that macros type on.
pub fn is_watched(is_keyboard: bool, name: &str) -> (r: bool)
    ensures
        r == (is_keyboard && !occurs(name@, "RoJoin"@)),
{
    is_keyboard && !contains_text(name, "RoJoin")
}

/// What a key event of a Linux device means: 1 is a press, 0 a release, anything
/// else a repeat.
pub fn event_of(code: u16, value: i32) -> (r: Option<HotkeyEvent>)
    ensures
        match r {
            Some(HotkeyEvent::Pressed(k)) => value == 1 && k.evdev() == code,
            Some(HotkeyEvent::Released(k)) => value == 0 && k.evdev() == code,
            None => (value != 0 && value != 1) || forall|k: Key| #[trigger] k.evdev() != code,
        },
{
    match key_from_evdev(code) {
        Some(key) => if value == 1 {
            Some(HotkeyEvent::Pressed(key))
        } else if value == 0 {
            Some(HotkeyEvent::Released(key))
        } else {
            None
        },
        None => None,
    }
}

/// The messages of Windows that say a key went down: `WM_KEYDOWN`, and
/// `WM_SYSKEYDOWN` with Alt held.
pub open spec fn says_down(message: u32) -> bool {
    message == 0x0100 || message == 0x0104
}

/// Those that say a key went up: `WM_KEYUP` and `WM_SYSKEYUP`.
pub open spec fn says_up(message: u32) -> bool {
    message == 0x0101 || message == 0x0105
}

/// What a keyboard message of Windows means. Any other message is none.
pub fn event_of_message(message: u32, vk: u16) -> (r: Option<HotkeyEvent>)
    ensures
        match r {
            Some(HotkeyEvent::Pressed(k)) => says_down(message) && k.vk() == vk,
            Some(HotkeyEvent::Released(k)) => says_up(message) && k.vk() == vk,
            None => (!says_down(message) && !says_up(message)) || forall|k: Key|
                #[trigger] k.vk() != vk,
        },
{
    match key_from_vk(vk) {
        Some(key) => if message == 0x0100 || message == 0x0104 {
            Some(HotkeyEvent::Pressed(key))
        } else if message == 0x0101 || message == 0x0105 {
            Some(HotkeyEvent::Released(key))
        } else {
            None
        },
        None => None,
    }
}

/// A message says that a key went down, or that one went up, or neither: 256 and 260
/// are the presses and 257 and 261 the releases.
pub proof fn law_keyboard_messages(message: u32)
    ensures
        says_down(message) <==> message == 256 || message == 260,
        says_up(message) <==> message == 257 || message == 261,
        !(says_down(message) && says_up(message)),
{
}

} // verus!
