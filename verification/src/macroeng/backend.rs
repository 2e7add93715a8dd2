//! Synthesising input: what the backends are, and what to do where there is
//! none.

use crate::macroeng::{Error, MouseButton};
use vstd::prelude::*;

verus! {

#[derive(Debug, Clone, Copy, PartialEq, Eq, Structural)]
pub enum Backend {
    Uinput,
    SendInput,
}

/// The setup that creating a virtual input device needs.
pub const SETUP: &'static str =
    "RoJoin needs permission to create a virtual input device.\n\nRun these once, then log out and back in:\n\nsudo usermod -aG input $USER\necho 'KERNEL==\"uinput\", GROUP=\"input\", MODE=\"0660\"' | \\\n  sudo tee /etc/udev/rules.d/99-rojoin-uinput.rules\nsudo udevadm control --reload-rules && sudo udevadm trigger";

/// Setup instructions to copy, where input cannot be synthesised. Elsewhere than
/// on Unix it always can.
pub fn permission_hint(unix: bool, available: bool) -> (r: Option<String>)
    ensures
        match r {
            Some(t) => unix && !available && t@ == SETUP@,
            None => !unix || available,
        },
{
    if unix && !available {
        Some(SETUP.to_owned())
    } else {
        None
    }
}

/// Why the virtual device could not be created.
pub fn open_error(denied: bool, available: bool, detail: &str) -> (r: Error)
    ensures
        match r {
            Error::Permission(t) => denied && t@ == (if available {
                "cannot open /dev/uinput"@
            } else {
                SETUP@
            }),
            Error::NoBackend(t) => !denied && t@ == detail@,
            Error::Input(_) => false,
        },
{
    if denied {
        Error::Permission(
            match permission_hint(true, available) {
                Some(t) => t,
                None => "cannot open /dev/uinput".to_owned(),
            },
        )
    } else {
        Error::NoBackend(detail.to_owned())
    }
}

/// The code of a mouse button in Linux input events.
pub fn button_code(button: MouseButton) -> (code: u16)
    ensures
        code == (match button {
            MouseButton::Left => 0x110u16,
            MouseButton::Right => 0x111u16,
            MouseButton::Middle => 0x112u16,
        }),
{
    match button {
        MouseButton::Left => 0x110,
        MouseButton::Right => 0x111,
        MouseButton::Middle => 0x112,
    }
}

/// What Windows is told for a button that goes down or up: `MOUSEEVENTF_LEFTDOWN`
/// and the like.
pub fn mouse_flags(button: MouseButton, down: bool) -> (flags: u32)
    ensures
        flags == (match (button, down) {
            (MouseButton::Left, true) => 0x0002u32,
            (MouseButton::Left, false) => 0x0004u32,
            (MouseButton::Right, true) => 0x0008u32,
            (MouseButton::Right, false) => 0x0010u32,
            (MouseButton::Middle, true) => 0x0020u32,
            (MouseButton::Middle, false) => 0x0040u32,
        }),
{
    match (button, down) {
        (MouseButton::Left, true) => 0x0002,
        (MouseButton::Left, false) => 0x0004,
        (MouseButton::Right, true) => 0x0008,
        (MouseButton::Right, false) => 0x0010,
        (MouseButton::Middle, true) => 0x0020,
        (MouseButton::Middle, false) => 0x0040,
    }
}

} // verus!
