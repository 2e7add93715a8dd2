//! The keys that macros use, by platform-independent names.
//!
//! A small, closed set rather than every key a keyboard has: it covers what
//! movement and play use, and every platform's codes are given for each.

use crate::text::{ascii_lowercase, same_ignoring_case};
use vstd::prelude::*;
use vstd::string::*;

verus! {

#[derive(Debug, Clone, Copy, PartialEq, Eq, Hash, Structural)]
pub enum Key {
    W,
    A,
    S,
    D,
    Q,
    E,
    R,
    F,
    C,
    V,
    X,
    Z,
    G,
    H,
    T,
    B,
    N,
    M,
    Space,
    Shift,
    Ctrl,
    Alt,
    Tab,
    Escape,
    Enter,
    Num0,
    Num1,
    Num2,
    Num3,
    Num4,
    Num5,
    Num6,
    Num7,
    Num8,
    Num9,
    F1,
    F2,
    F3,
    F4,
    F5,
    F6,
    F7,
    F8,
    F9,
    F10,
    F11,
    F12,
    Up,
    Down,
    Left,
    Right,
}

impl Key {
    /// Every key, for the hotkey picker.
    pub const ALL: [Key; 51] = [
        Key::W,
        Key::A,
        Key::S,
        Key::D,
        Key::Q,
        Key::E,
        Key::R,
        Key::F,
        Key::C,
        Key::V,
        Key::X,
        Key::Z,
        Key::G,
        Key::H,
        Key::T,
        Key::B,
        Key::N,
        Key::M,
        Key::Space,
        Key::Shift,
        Key::Ctrl,
        Key::Alt,
        Key::Tab,
        Key::Escape,
        Key::Enter,
        Key::Num0,
        Key::Num1,
        Key::Num2,
        Key::Num3,
        Key::Num4,
        Key::Num5,
        Key::Num6,
        Key::Num7,
        Key::Num8,
        Key::Num9,
        Key::F1,
        Key::F2,
        Key::F3,
        Key::F4,
        Key::F5,
        Key::F6,
        Key::F7,
        Key::F8,
        Key::F9,
        Key::F10,
        Key::F11,
        Key::F12,
        Key::Up,
        Key::Down,
        Key::Left,
        Key::Right,
    ];

    /// The name that is shown.
    pub open spec fn label_text(self) -> Seq<char> {
        match self {
            Key::W => "W"@,
            Key::A => "A"@,
            Key::S => "S"@,
            Key::D => "D"@,
            Key::Q => "Q"@,
            Key::E => "E"@,
            Key::R => "R"@,
            Key::F => "F"@,
            Key::C => "C"@,
            Key::V => "V"@,
            Key::X => "X"@,
            Key::Z => "Z"@,
            Key::G => "G"@,
            Key::H => "H"@,
            Key::T => "T"@,
            Key::B => "B"@,
            Key::N => "N"@,
            Key::M => "M"@,
            Key::Space => "Space"@,
            Key::Shift => "Shift"@,
            Key::Ctrl => "Ctrl"@,
            Key::Alt => "Alt"@,
            Key::Tab => "Tab"@,
            Key::Escape => "Esc"@,
            Key::Enter => "Enter"@,
            Key::Num0 => "0"@,
            Key::Num1 => "1"@,
            Key::Num2 => "2"@,
            Key::Num3 => "3"@,
            Key::Num4 => "4"@,
            Key::Num5 => "5"@,
            Key::Num6 => "6"@,
            Key::Num7 => "7"@,
            Key::Num8 => "8"@,
            Key::Num9 => "9"@,
            Key::F1 => "F1"@,
            Key::F2 => "F2"@,
            Key::F3 => "F3"@,
            Key::F4 => "F4"@,
            Key::F5 => "F5"@,
            Key::F6 => "F6"@,
            Key::F7 => "F7"@,
            Key::F8 => "F8"@,
            Key::F9 => "F9"@,
            Key::F10 => "F10"@,
            Key::F11 => "F11"@,
            Key::F12 => "F12"@,
            Key::Up => "Up"@,
            Key::Down => "Down"@,
            Key::Left => "Left"@,
            Key::Right => "Right"@,
        }
    }

    /// The name that is shown.
    pub fn label(self) -> (r: &'static str)
        ensures
            r@ == self.label_text(),
    {
        match self {
            Key::W => "W",
            Key::A => "A",
            Key::S => "S",
            Key::D => "D",
            Key::Q => "Q",
            Key::E => "E",
            Key::R => "R",
            Key::F => "F",
            Key::C => "C",
            Key::V => "V",
            Key::X => "X",
            Key::Z => "Z",
            Key::G => "G",
            Key::H => "H",
            Key::T => "T",
            Key::B => "B",
            Key::N => "N",
            Key::M => "M",
            Key::Space => "Space",
            Key::Shift => "Shift",
            Key::Ctrl => "Ctrl",
            Key::Alt => "Alt",
            Key::Tab => "Tab",
            Key::Escape => "Esc",
            Key::Enter => "Enter",
            Key::Num0 => "0",
            Key::Num1 => "1",
            Key::Num2 => "2",
            Key::Num3 => "3",
            Key::Num4 => "4",
            Key::Num5 => "5",
            Key::Num6 => "6",
            Key::Num7 => "7",
            Key::Num8 => "8",
            Key::Num9 => "9",
            Key::F1 => "F1",
            Key::F2 => "F2",
            Key::F3 => "F3",
            Key::F4 => "F4",
            Key::F5 => "F5",
            Key::F6 => "F6",
            Key::F7 => "F7",
            Key::F8 => "F8",
            Key::F9 => "F9",
            Key::F10 => "F10",
            Key::F11 => "F11",
            Key::F12 => "F12",
            Key::Up => "Up",
            Key::Down => "Down",
            Key::Left => "Left",
            Key::Right => "Right",
        }
    }

    /// The key of this name, whatever the case of its letters.
    pub fn from_label(label: &str) -> (r: Option<Key>)
        ensures
            match r {
                Some(k) => ascii_lowercase(k.label_text()) == ascii_lowercase(label@),
                None => forall|k: Key|
                    ascii_lowercase(#[trigger] k.label_text()) != ascii_lowercase(label@),
            },
    {
        let mut i: usize = 0;
        while i < 51
            invariant
                i <= 51,
                forall|j: int|
                    0 <= j < i ==> ascii_lowercase((#[trigger] Key::ALL@[j]).label_text())
                        != ascii_lowercase(label@),
            decreases 51 - i,
        {
            let k = Key::ALL[i];
            if same_ignoring_case(k.label(), label) {
                return Some(k);
            }
            i = i + 1;
        }
        assert forall|k: Key| ascii_lowercase(#[trigger] k.label_text()) != ascii_lowercase(
            label@,
        ) by {
            lemma_every_key_is_listed(k);
        }
        None
    }

    /// The key's code in Linux input events.
    pub open spec fn evdev(self) -> u16 {
        match self {
            Key::W => 17,
            Key::A => 30,
            Key::S => 31,
            Key::D => 32,
            Key::Q => 16,
            Key::E => 18,
            Key::R => 19,
            Key::F => 33,
            Key::C => 46,
            Key::V => 47,
            Key::X => 45,
            Key::Z => 44,
            Key::G => 34,
            Key::H => 35,
            Key::T => 20,
            Key::B => 48,
            Key::N => 49,
            Key::M => 50,
            Key::Space => 57,
            Key::Shift => 42,
            Key::Ctrl => 29,
            Key::Alt => 56,
            Key::Tab => 15,
            Key::Escape => 1,
            Key::Enter => 28,
            Key::Num0 => 11,
            Key::Num1 => 2,
            Key::Num2 => 3,
            Key::Num3 => 4,
            Key::Num4 => 5,
            Key::Num5 => 6,
            Key::Num6 => 7,
            Key::Num7 => 8,
            Key::Num8 => 9,
            Key::Num9 => 10,
            Key::F1 => 59,
            Key::F2 => 60,
            Key::F3 => 61,
            Key::F4 => 62,
            Key::F5 => 63,
            Key::F6 => 64,
            Key::F7 => 65,
            Key::F8 => 66,
            Key::F9 => 67,
            Key::F10 => 68,
            Key::F11 => 87,
            Key::F12 => 88,
            Key::Up => 103,
            Key::Down => 108,
            Key::Left => 105,
            Key::Right => 106,
        }
    }

    /// The key's code in Linux input events.
    pub fn evdev_code(self) -> (code: u16)
        ensures
            code == self.evdev(),
    {
        match self {
            Key::W => 17,
            Key::A => 30,
            Key::S => 31,
            Key::D => 32,
            Key::Q => 16,
            Key::E => 18,
            Key::R => 19,
            Key::F => 33,
            Key::C => 46,
            Key::V => 47,
            Key::X => 45,
            Key::Z => 44,
            Key::G => 34,
            Key::H => 35,
            Key::T => 20,
            Key::B => 48,
            Key::N => 49,
            Key::M => 50,
            Key::Space => 57,
            Key::Shift => 42,
            Key::Ctrl => 29,
            Key::Alt => 56,
            Key::Tab => 15,
            Key::Escape => 1,
            Key::Enter => 28,
            Key::Num0 => 11,
            Key::Num1 => 2,
            Key::Num2 => 3,
            Key::Num3 => 4,
            Key::Num4 => 5,
            Key::Num5 => 6,
            Key::Num6 => 7,
            Key::Num7 => 8,
            Key::Num8 => 9,
            Key::Num9 => 10,
            Key::F1 => 59,
            Key::F2 => 60,
            Key::F3 => 61,
            Key::F4 => 62,
            Key::F5 => 63,
            Key::F6 => 64,
            Key::F7 => 65,
            Key::F8 => 66,
            Key::F9 => 67,
            Key::F10 => 68,
            Key::F11 => 87,
            Key::F12 => 88,
            Key::Up => 103,
            Key::Down => 108,
            Key::Left => 105,
            Key::Right => 106,
        }
    }

    /// The key's virtual-key code on Windows.
    pub open spec fn vk(self) -> u16 {
        match self {
            Key::W => 0x57,
            Key::A => 0x41,
            Key::S => 0x53,
            Key::D => 0x44,
            Key::Q => 0x51,
            Key::E => 0x45,
            Key::R => 0x52,
            Key::F => 0x46,
            Key::C => 0x43,
            Key::V => 0x56,
            Key::X => 0x58,
            Key::Z => 0x5a,
            Key::G => 0x47,
            Key::H => 0x48,
            Key::T => 0x54,
            Key::B => 0x42,
            Key::N => 0x4e,
            Key::M => 0x4d,
            Key::Space => 0x20,
            Key::Shift => 0x10,
            Key::Ctrl => 0x11,
            Key::Alt => 0x12,
            Key::Tab => 0x09,
            Key::Escape => 0x1b,
            Key::Enter => 0x0d,
            Key::Num0 => 0x30,
            Key::Num1 => 0x31,
            Key::Num2 => 0x32,
            Key::Num3 => 0x33,
            Key::Num4 => 0x34,
            Key::Num5 => 0x35,
            Key::Num6 => 0x36,
            Key::Num7 => 0x37,
            Key::Num8 => 0x38,
            Key::Num9 => 0x39,
            Key::F1 => 0x70,
            Key::F2 => 0x71,
            Key::F3 => 0x72,
            Key::F4 => 0x73,
            Key::F5 => 0x74,
            Key::F6 => 0x75,
            Key::F7 => 0x76,
            Key::F8 => 0x77,
            Key::F9 => 0x78,
            Key::F10 => 0x79,
            Key::F11 => 0x7a,
            Key::F12 => 0x7b,
            Key::Up => 0x26,
            Key::Down => 0x28,
            Key::Left => 0x25,
            Key::Right => 0x27,
        }
    }

    /// The key's virtual-key code on Windows.
    pub fn vk_code(self) -> (code: u16)
        ensures
            code == self.vk(),
    {
        match self {
            Key::W => 0x57,
            Key::A => 0x41,
            Key::S => 0x53,
            Key::D => 0x44,
            Key::Q => 0x51,
            Key::E => 0x45,
            Key::R => 0x52,
            Key::F => 0x46,
            Key::C => 0x43,
            Key::V => 0x56,
            Key::X => 0x58,
            Key::Z => 0x5a,
            Key::G => 0x47,
            Key::H => 0x48,
            Key::T => 0x54,
            Key::B => 0x42,
            Key::N => 0x4e,
            Key::M => 0x4d,
            Key::Space => 0x20,
            Key::Shift => 0x10,
            Key::Ctrl => 0x11,
            Key::Alt => 0x12,
            Key::Tab => 0x09,
            Key::Escape => 0x1b,
            Key::Enter => 0x0d,
            Key::Num0 => 0x30,
            Key::Num1 => 0x31,
            Key::Num2 => 0x32,
            Key::Num3 => 0x33,
            Key::Num4 => 0x34,
            Key::Num5 => 0x35,
            Key::Num6 => 0x36,
            Key::Num7 => 0x37,
            Key::Num8 => 0x38,
            Key::Num9 => 0x39,
            Key::F1 => 0x70,
            Key::F2 => 0x71,
            Key::F3 => 0x72,
            Key::F4 => 0x73,
            Key::F5 => 0x74,
            Key::F6 => 0x75,
            Key::F7 => 0x76,
            Key::F8 => 0x77,
            Key::F9 => 0x78,
            Key::F10 => 0x79,
            Key::F11 => 0x7a,
            Key::F12 => 0x7b,
            Key::Up => 0x26,
            Key::Down => 0x28,
            Key::Left => 0x25,
            Key::Right => 0x27,
        }
    }

    /// The key's place in the list of all keys.
    pub open spec fn place(self) -> int {
        match self {
            Key::W => 0,
            Key::A => 1,
            Key::S => 2,
            Key::D => 3,
            Key::Q => 4,
            Key::E => 5,
            Key::R => 6,
            Key::F => 7,
            Key::C => 8,
            Key::V => 9,
            Key::X => 10,
            Key::Z => 11,
            Key::G => 12,
            Key::H => 13,
            Key::T => 14,
            Key::B => 15,
            Key::N => 16,
            Key::M => 17,
            Key::Space => 18,
            Key::Shift => 19,
            Key::Ctrl => 20,
            Key::Alt => 21,
            Key::Tab => 22,
            Key::Escape => 23,
            Key::Enter => 24,
            Key::Num0 => 25,
            Key::Num1 => 26,
            Key::Num2 => 27,
            Key::Num3 => 28,
            Key::Num4 => 29,
            Key::Num5 => 30,
            Key::Num6 => 31,
            Key::Num7 => 32,
            Key::Num8 => 33,
            Key::Num9 => 34,
            Key::F1 => 35,
            Key::F2 => 36,
            Key::F3 => 37,
            Key::F4 => 38,
            Key::F5 => 39,
            Key::F6 => 40,
            Key::F7 => 41,
            Key::F8 => 42,
            Key::F9 => 43,
            Key::F10 => 44,
            Key::F11 => 45,
            Key::F12 => 46,
            Key::Up => 47,
            Key::Down => 48,
            Key::Left => 49,
            Key::Right => 50,
        }
    }
}

/// Every key stands in the list of all keys.
pub proof fn lemma_every_key_is_listed(k: Key)
    ensures
        0 <= k.place() < 51,
        Key::ALL@[k.place()] == k,
{
}

/// No two keys share a code, on either platform: a code names one key.
pub proof fn law_codes_name_one_key(a: Key, b: Key)
    ensures
        a.evdev() == b.evdev() ==> a == b,
        a.vk() == b.vk() ==> a == b,
        a.evdev() != 0,
        a.vk() != 0,
{
}

/// The key that a name in lower case stands for.
pub open spec fn named(s: Seq<char>) -> Key {
    if s.len() == 1 {
        if s[0] == 'w' {
            Key::W
        } else if s[0] == 'a' {
            Key::A
        } else if s[0] == 's' {
            Key::S
        } else if s[0] == 'd' {
            Key::D
        } else if s[0] == 'q' {
            Key::Q
        } else if s[0] == 'e' {
            Key::E
        } else if s[0] == 'r' {
            Key::R
        } else if s[0] == 'f' {
            Key::F
        } else if s[0] == 'c' {
            Key::C
        } else if s[0] == 'v' {
            Key::V
        } else if s[0] == 'x' {
            Key::X
        } else if s[0] == 'z' {
            Key::Z
        } else if s[0] == 'g' {
            Key::G
        } else if s[0] == 'h' {
            Key::H
        } else if s[0] == 't' {
            Key::T
        } else if s[0] == 'b' {
            Key::B
        } else if s[0] == 'n' {
            Key::N
        } else if s[0] == 'm' {
            Key::M
        } else if s[0] == '0' {
            Key::Num0
        } else if s[0] == '1' {
            Key::Num1
        } else if s[0] == '2' {
            Key::Num2
        } else if s[0] == '3' {
            Key::Num3
        } else if s[0] == '4' {
            Key::Num4
        } else if s[0] == '5' {
            Key::Num5
        } else if s[0] == '6' {
            Key::Num6
        } else if s[0] == '7' {
            Key::Num7
        } else if s[0] == '8' {
            Key::Num8
        } else if s[0] == '9' {
            Key::Num9
        } else {
            Key::W
        }
    } else if s[0] == 'f' {
        if s.len() == 3 {
            if s[2] == '0' {
                Key::F10
            } else if s[2] == '1' {
                Key::F11
            } else {
                Key::F12
            }
        } else if s[1] == '1' {
            Key::F1
        } else if s[1] == '2' {
            Key::F2
        } else if s[1] == '3' {
            Key::F3
        } else if s[1] == '4' {
            Key::F4
        } else if s[1] == '5' {
            Key::F5
        } else if s[1] == '6' {
            Key::F6
        } else if s[1] == '7' {
            Key::F7
        } else if s[1] == '8' {
            Key::F8
        } else if s[1] == '9' {
            Key::F9
        } else {
            Key::F9
        }
    } else if s[0] == 's' && s[1] == 'p' {
        Key::Space
    } else if s[0] == 's' && s[1] == 'h' {
        Key::Shift
    } else if s[0] == 'c' && s[1] == 't' {
        Key::Ctrl
    } else if s[0] == 'a' && s[1] == 'l' {
        Key::Alt
    } else if s[0] == 't' && s[1] == 'a' {
        Key::Tab
    } else if s[0] == 'e' && s[1] == 's' {
        Key::Escape
    } else if s[0] == 'e' && s[1] == 'n' {
        Key::Enter
    } else if s[0] == 'u' && s[1] == 'p' {
        Key::Up
    } else if s[0] == 'd' && s[1] == 'o' {
        Key::Down
    } else if s[0] == 'l' && s[1] == 'e' {
        Key::Left
    } else if s[0] == 'r' && s[1] == 'i' {
        Key::Right
    } else {
        Key::W
    }
}

proof fn lemma_label_names_key(k: Key)
    ensures
        named(ascii_lowercase(k.label_text())) == k,
{
    match k {
        Key::W => {
            reveal_strlit("W");
        },
        Key::A => {
            reveal_strlit("A");
        },
        Key::S => {
            reveal_strlit("S");
        },
        Key::D => {
            reveal_strlit("D");
        },
        Key::Q => {
            reveal_strlit("Q");
        },
        Key::E => {
            reveal_strlit("E");
        },
        Key::R => {
            reveal_strlit("R");
        },
        Key::F => {
            reveal_strlit("F");
        },
        Key::C => {
            reveal_strlit("C");
        },
        Key::V => {
            reveal_strlit("V");
        },
        Key::X => {
            reveal_strlit("X");
        },
        Key::Z => {
            reveal_strlit("Z");
        },
        Key::G => {
            reveal_strlit("G");
        },
        Key::H => {
            reveal_strlit("H");
        },
        Key::T => {
            reveal_strlit("T");
        },
        Key::B => {
            reveal_strlit("B");
        },
        Key::N => {
            reveal_strlit("N");
        },
        Key::M => {
            reveal_strlit("M");
        },
        Key::Space => {
            reveal_strlit("Space");
        },
        Key::Shift => {
            reveal_strlit("Shift");
        },
        Key::Ctrl => {
            reveal_strlit("Ctrl");
        },
        Key::Alt => {
            reveal_strlit("Alt");
        },
        Key::Tab => {
            reveal_strlit("Tab");
        },
        Key::Escape => {
            reveal_strlit("Esc");
        },
        Key::Enter => {
            reveal_strlit("Enter");
        },
        Key::Num0 => {
            reveal_strlit("0");
        },
        Key::Num1 => {
            reveal_strlit("1");
        },
        Key::Num2 => {
            reveal_strlit("2");
        },
        Key::Num3 => {
            reveal_strlit("3");
        },
        Key::Num4 => {
            reveal_strlit("4");
        },
        Key::Num5 => {
            reveal_strlit("5");
        },
        Key::Num6 => {
            reveal_strlit("6");
        },
        Key::Num7 => {
            reveal_strlit("7");
        },
        Key::Num8 => {
            reveal_strlit("8");
        },
        Key::Num9 => {
            reveal_strlit("9");
        },
        Key::F1 => {
            reveal_strlit("F1");
        },
        Key::F2 => {
            reveal_strlit("F2");
        },
        Key::F3 => {
            reveal_strlit("F3");
        },
        Key::F4 => {
            reveal_strlit("F4");
        },
        Key::F5 => {
            reveal_strlit("F5");
        },
        Key::F6 => {
            reveal_strlit("F6");
        },
        Key::F7 => {
            reveal_strlit("F7");
        },
        Key::F8 => {
            reveal_strlit("F8");
        },
        Key::F9 => {
            reveal_strlit("F9");
        },
        Key::F10 => {
            reveal_strlit("F10");
        },
        Key::F11 => {
            reveal_strlit("F11");
        },
        Key::F12 => {
            reveal_strlit("F12");
        },
        Key::Up => {
            reveal_strlit("Up");
        },
        Key::Down => {
            reveal_strlit("Down");
        },
        Key::Left => {
            reveal_strlit("Left");
        },
        Key::Right => {
            reveal_strlit("Right");
        },
    }
}

/// No two keys share a name, whatever the case of its letters; so a key's name
/// finds that key again.
pub proof fn law_labels_name_one_key(a: Key, b: Key)
    requires
        ascii_lowercase(a.label_text()) == ascii_lowercase(b.label_text()),
    ensures
        a == b,
{
    lemma_label_names_key(a);
    lemma_label_names_key(b);
}

/// The key of a Linux input event's code.
pub fn key_from_evdev(code: u16) -> (r: Option<Key>)
    ensures
        match r {
            Some(k) => k.evdev() == code,
            None => forall|k: Key| #[trigger] k.evdev() != code,
        },
{
    let mut i: usize = 0;
    while i < 51
        invariant
            i <= 51,
            forall|j: int| 0 <= j < i ==> (#[trigger] Key::ALL@[j]).evdev() != code,
        decreases 51 - i,
    {
        let k = Key::ALL[i];
        if k.evdev_code() == code {
            return Some(k);
        }
        i = i + 1;
    }
    assert forall|k: Key| #[trigger] k.evdev() != code by {
        lemma_every_key_is_listed(k);
    }
    None
}

/// The key of a virtual-key code on Windows.
pub fn key_from_vk(code: u16) -> (r: Option<Key>)
    ensures
        match r {
            Some(k) => k.vk() == code,
            None => forall|k: Key| #[trigger] k.vk() != code,
        },
{
    let mut i: usize = 0;
    while i < 51
        invariant
            i <= 51,
            forall|j: int| 0 <= j < i ==> (#[trigger] Key::ALL@[j]).vk() != code,
        decreases 51 - i,
    {
        let k = Key::ALL[i];
        if k.vk_code() == code {
            return Some(k);
        }
        i = i + 1;
    }
    assert forall|k: Key| #[trigger] k.vk() != code by {
        lemma_every_key_is_listed(k);
    }
    None
}

/// The codes that Linux gives the keys.
pub proof fn law_linux_codes(k: Key)
    ensures
        match k {
            Key::W => k.evdev() == 17,
            Key::A => k.evdev() == 30,
            Key::S => k.evdev() == 31,
            Key::D => k.evdev() == 32,
            Key::Q => k.evdev() == 16,
            Key::E => k.evdev() == 18,
            Key::R => k.evdev() == 19,
            Key::F => k.evdev() == 33,
            Key::C => k.evdev() == 46,
            Key::V => k.evdev() == 47,
            Key::X => k.evdev() == 45,
            Key::Z => k.evdev() == 44,
            Key::G => k.evdev() == 34,
            Key::H => k.evdev() == 35,
            Key::T => k.evdev() == 20,
            Key::B => k.evdev() == 48,
            Key::N => k.evdev() == 49,
            Key::M => k.evdev() == 50,
            Key::Space => k.evdev() == 57,
            Key::Shift => k.evdev() == 42,
            Key::Ctrl => k.evdev() == 29,
            Key::Alt => k.evdev() == 56,
            Key::Tab => k.evdev() == 15,
            Key::Escape => k.evdev() == 1,
            Key::Enter => k.evdev() == 28,
            Key::Num0 => k.evdev() == 11,
            Key::Num1 => k.evdev() == 2,
            Key::Num2 => k.evdev() == 3,
            Key::Num3 => k.evdev() == 4,
            Key::Num4 => k.evdev() == 5,
            Key::Num5 => k.evdev() == 6,
            Key::Num6 => k.evdev() == 7,
            Key::Num7 => k.evdev() == 8,
            Key::Num8 => k.evdev() == 9,
            Key::Num9 => k.evdev() == 10,
            Key::F1 => k.evdev() == 59,
            Key::F2 => k.evdev() == 60,
            Key::F3 => k.evdev() == 61,
            Key::F4 => k.evdev() == 62,
            Key::F5 => k.evdev() == 63,
            Key::F6 => k.evdev() == 64,
            Key::F7 => k.evdev() == 65,
            Key::F8 => k.evdev() == 66,
            Key::F9 => k.evdev() == 67,
            Key::F10 => k.evdev() == 68,
            Key::F11 => k.evdev() == 87,
            Key::F12 => k.evdev() == 88,
            Key::Up => k.evdev() == 103,
            Key::Down => k.evdev() == 108,
            Key::Left => k.evdev() == 105,
            Key::Right => k.evdev() == 106,
        },
{
}

/// The codes that Windows gives the keys.
pub proof fn law_windows_codes(k: Key)
    ensures
        match k {
            Key::W => k.vk() == 0x57,
            Key::A => k.vk() == 0x41,
            Key::S => k.vk() == 0x53,
            Key::D => k.vk() == 0x44,
            Key::Q => k.vk() == 0x51,
            Key::E => k.vk() == 0x45,
            Key::R => k.vk() == 0x52,
            Key::F => k.vk() == 0x46,
            Key::C => k.vk() == 0x43,
            Key::V => k.vk() == 0x56,
            Key::X => k.vk() == 0x58,
            Key::Z => k.vk() == 0x5a,
            Key::G => k.vk() == 0x47,
            Key::H => k.vk() == 0x48,
            Key::T => k.vk() == 0x54,
            Key::B => k.vk() == 0x42,
            Key::N => k.vk() == 0x4e,
            Key::M => k.vk() == 0x4d,
            Key::Space => k.vk() == 0x20,
            Key::Shift => k.vk() == 0x10,
            Key::Ctrl => k.vk() == 0x11,
            Key::Alt => k.vk() == 0x12,
            Key::Tab => k.vk() == 0x09,
            Key::Escape => k.vk() == 0x1b,
            Key::Enter => k.vk() == 0x0d,
            Key::Num0 => k.vk() == 0x30,
            Key::Num1 => k.vk() == 0x31,
            Key::Num2 => k.vk() == 0x32,
            Key::Num3 => k.vk() == 0x33,
            Key::Num4 => k.vk() == 0x34,
            Key::Num5 => k.vk() == 0x35,
            Key::Num6 => k.vk() == 0x36,
            Key::Num7 => k.vk() == 0x37,
            Key::Num8 => k.vk() == 0x38,
            Key::Num9 => k.vk() == 0x39,
            Key::F1 => k.vk() == 0x70,
            Key::F2 => k.vk() == 0x71,
            Key::F3 => k.vk() == 0x72,
            Key::F4 => k.vk() == 0x73,
            Key::F5 => k.vk() == 0x74,
            Key::F6 => k.vk() == 0x75,
            Key::F7 => k.vk() == 0x76,
            Key::F8 => k.vk() == 0x77,
            Key::F9 => k.vk() == 0x78,
            Key::F10 => k.vk() == 0x79,
            Key::F11 => k.vk() == 0x7a,
            Key::F12 => k.vk() == 0x7b,
            Key::Up => k.vk() == 0x26,
            Key::Down => k.vk() == 0x28,
            Key::Left => k.vk() == 0x25,
            Key::Right => k.vk() == 0x27,
        },
{
}

/// On Windows a letter or a digit has the code of its own character.
pub proof fn law_letters_have_their_own_code(k: Key)
    requires
        k.label_text().len() == 1,
    ensures
        k.vk() == k.label_text()[0] as u32,
{
    match k {
        Key::W => {
            reveal_strlit("W");
        },
        Key::A => {
            reveal_strlit("A");
        },
        Key::S => {
            reveal_strlit("S");
        },
        Key::D => {
            reveal_strlit("D");
        },
        Key::Q => {
            reveal_strlit("Q");
        },
        Key::E => {
            reveal_strlit("E");
        },
        Key::R => {
            reveal_strlit("R");
        },
        Key::F => {
            reveal_strlit("F");
        },
        Key::C => {
            reveal_strlit("C");
        },
        Key::V => {
            reveal_strlit("V");
        },
        Key::X => {
            reveal_strlit("X");
        },
        Key::Z => {
            reveal_strlit("Z");
        },
        Key::G => {
            reveal_strlit("G");
        },
        Key::H => {
            reveal_strlit("H");
        },
        Key::T => {
            reveal_strlit("T");
        },
        Key::B => {
            reveal_strlit("B");
        },
        Key::N => {
            reveal_strlit("N");
        },
        Key::M => {
            reveal_strlit("M");
        },
        Key::Space => {
            reveal_strlit("Space");
        },
        Key::Shift => {
            reveal_strlit("Shift");
        },
        Key::Ctrl => {
            reveal_strlit("Ctrl");
        },
        Key::Alt => {
            reveal_strlit("Alt");
        },
        Key::Tab => {
            reveal_strlit("Tab");
        },
        Key::Escape => {
            reveal_strlit("Esc");
        },
        Key::Enter => {
            reveal_strlit("Enter");
        },
        Key::Num0 => {
            reveal_strlit("0");
        },
        Key::Num1 => {
            reveal_strlit("1");
        },
        Key::Num2 => {
            reveal_strlit("2");
        },
        Key::Num3 => {
            reveal_strlit("3");
        },
        Key::Num4 => {
            reveal_strlit("4");
        },
        Key::Num5 => {
            reveal_strlit("5");
        },
        Key::Num6 => {
            reveal_strlit("6");
        },
        Key::Num7 => {
            reveal_strlit("7");
        },
        Key::Num8 => {
            reveal_strlit("8");
        },
        Key::Num9 => {
            reveal_strlit("9");
        },
        Key::F1 => {
            reveal_strlit("F1");
        },
        Key::F2 => {
            reveal_strlit("F2");
        },
        Key::F3 => {
            reveal_strlit("F3");
        },
        Key::F4 => {
            reveal_strlit("F4");
        },
        Key::F5 => {
            reveal_strlit("F5");
        },
        Key::F6 => {
            reveal_strlit("F6");
        },
        Key::F7 => {
            reveal_strlit("F7");
        },
        Key::F8 => {
            reveal_strlit("F8");
        },
        Key::F9 => {
            reveal_strlit("F9");
        },
        Key::F10 => {
            reveal_strlit("F10");
        },
        Key::F11 => {
            reveal_strlit("F11");
        },
        Key::F12 => {
            reveal_strlit("F12");
        },
        Key::Up => {
            reveal_strlit("Up");
        },
        Key::Down => {
            reveal_strlit("Down");
        },
        Key::Left => {
            reveal_strlit("Left");
        },
        Key::Right => {
            reveal_strlit("Right");
        },
    }
}

/// The names that the keys are shown by.
pub proof fn law_key_names(k: Key)
    ensures
        match k {
            Key::W => k.label_text() == "W"@,
            Key::A => k.label_text() == "A"@,
            Key::S => k.label_text() == "S"@,
            Key::D => k.label_text() == "D"@,
            Key::Q => k.label_text() == "Q"@,
            Key::E => k.label_text() == "E"@,
            Key::R => k.label_text() == "R"@,
            Key::F => k.label_text() == "F"@,
            Key::C => k.label_text() == "C"@,
            Key::V => k.label_text() == "V"@,
            Key::X => k.label_text() == "X"@,
            Key::Z => k.label_text() == "Z"@,
            Key::G => k.label_text() == "G"@,
            Key::H => k.label_text() == "H"@,
            Key::T => k.label_text() == "T"@,
            Key::B => k.label_text() == "B"@,
            Key::N => k.label_text() == "N"@,
            Key::M => k.label_text() == "M"@,
            Key::Space => k.label_text() == "Space"@,
            Key::Shift => k.label_text() == "Shift"@,
            Key::Ctrl => k.label_text() == "Ctrl"@,
            Key::Alt => k.label_text() == "Alt"@,
            Key::Tab => k.label_text() == "Tab"@,
            Key::Escape => k.label_text() == "Esc"@,
            Key::Enter => k.label_text() == "Enter"@,
            Key::Num0 => k.label_text() == "0"@,
            Key::Num1 => k.label_text() == "1"@,
            Key::Num2 => k.label_text() == "2"@,
            Key::Num3 => k.label_text() == "3"@,
            Key::Num4 => k.label_text() == "4"@,
            Key::Num5 => k.label_text() == "5"@,
            Key::Num6 => k.label_text() == "6"@,
            Key::Num7 => k.label_text() == "7"@,
            Key::Num8 => k.label_text() == "8"@,
            Key::Num9 => k.label_text() == "9"@,
            Key::F1 => k.label_text() == "F1"@,
            Key::F2 => k.label_text() == "F2"@,
            Key::F3 => k.label_text() == "F3"@,
            Key::F4 => k.label_text() == "F4"@,
            Key::F5 => k.label_text() == "F5"@,
            Key::F6 => k.label_text() == "F6"@,
            Key::F7 => k.label_text() == "F7"@,
            Key::F8 => k.label_text() == "F8"@,
            Key::F9 => k.label_text() == "F9"@,
            Key::F10 => k.label_text() == "F10"@,
            Key::F11 => k.label_text() == "F11"@,
            Key::F12 => k.label_text() == "F12"@,
            Key::Up => k.label_text() == "Up"@,
            Key::Down => k.label_text() == "Down"@,
            Key::Left => k.label_text() == "Left"@,
            Key::Right => k.label_text() == "Right"@,
        },
{
}

/// The keys in the order in which they are offered.
pub proof fn law_keys_are_offered_in_order(i: int)
    requires
        0 <= i < 51,
    ensures
        Key::ALL@[i].place() == i,
        Key::ALL@ == seq![
            Key::W,
            Key::A,
            Key::S,
            Key::D,
            Key::Q,
            Key::E,
            Key::R,
            Key::F,
            Key::C,
            Key::V,
            Key::X,
            Key::Z,
            Key::G,
            Key::H,
            Key::T,
            Key::B,
            Key::N,
            Key::M,
            Key::Space,
            Key::Shift,
            Key::Ctrl,
            Key::Alt,
            Key::Tab,
            Key::Escape,
            Key::Enter,
            Key::Num0,
            Key::Num1,
            Key::Num2,
            Key::Num3,
            Key::Num4,
            Key::Num5,
            Key::Num6,
            Key::Num7,
            Key::Num8,
            Key::Num9,
            Key::F1,
            Key::F2,
            Key::F3,
            Key::F4,
            Key::F5,
            Key::F6,
            Key::F7,
            Key::F8,
            Key::F9,
            Key::F10,
            Key::F11,
            Key::F12,
            Key::Up,
            Key::Down,
            Key::Left,
            Key::Right,
        ],
{
    assert(Key::ALL@ =~= seq![
        Key::W,
        Key::A,
        Key::S,
        Key::D,
        Key::Q,
        Key::E,
        Key::R,
        Key::F,
        Key::C,
        Key::V,
        Key::X,
        Key::Z,
        Key::G,
        Key::H,
        Key::T,
        Key::B,
        Key::N,
        Key::M,
        Key::Space,
        Key::Shift,
        Key::Ctrl,
        Key::Alt,
        Key::Tab,
        Key::Escape,
        Key::Enter,
        Key::Num0,
        Key::Num1,
        Key::Num2,
        Key::Num3,
        Key::Num4,
        Key::Num5,
        Key::Num6,
        Key::Num7,
        Key::Num8,
        Key::Num9,
        Key::F1,
        Key::F2,
        Key::F3,
        Key::F4,
        Key::F5,
        Key::F6,
        Key::F7,
        Key::F8,
        Key::F9,
        Key::F10,
        Key::F11,
        Key::F12,
        Key::Up,
        Key::Down,
        Key::Left,
        Key::Right,
    ]);
}

} // verus!
