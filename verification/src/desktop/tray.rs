//! The tray icon, so that closing the window can mean "keep running".
//!
//! Hiding without an icon would leave the application running with no way back,
//! so closing to the tray stays off where no icon could be made.

use vstd::prelude::*;

verus! {

/// What the user picked in the tray's menu.
#[derive(Debug, Clone, Copy, PartialEq, Eq, Structural)]
pub enum Action {
    Show,
    Quit,
}

/// A tray icon that is there.
pub struct Tray {
    pub live: bool,
}

/// An icon, where the platform had a place for it.
pub fn spawn(created: bool) -> (r: Option<Tray>)
    ensures
        match r {
            Some(t) => created && t.live,
            None => !created,
        },
{
    if created {
        Some(Tray { live: true })
    } else {
        None
    }
}

/// What a menu entry means.
pub fn chosen(is_show: bool, is_quit: bool) -> (r: Option<Action>)
    ensures
        r == (if is_show {
            Some(Action::Show)
        } else if is_quit {
            Some(Action::Quit)
        } else {
            None
        }),
{
    if is_show {
        Some(Action::Show)
    } else if is_quit {
        Some(Action::Quit)
    } else {
        None
    }
}

/// The icon is so many pixels wide and high.
pub const SIDE: u32 = 32;

/// One byte of a pixel: red, green, blue or opacity. The edge is clear, the
/// middle dark, and the ring between them in the accent colour.
pub open spec fn pixel_byte(x: int, y: int, channel: int) -> u8 {
    if x < 3 || y < 3 || x >= SIDE - 3 || y >= SIDE - 3 {
        0
    } else if channel == 3 {
        0xff
    } else if 6 <= x < SIDE - 6 && 6 <= y < SIDE - 6 {
        if channel == 2 {
            0x0d
        } else {
            0x0b
        }
    } else if channel == 0 {
        0x4c
    } else if channel == 1 {
        0x8d
    } else {
        0xff
    }
}

/// The icon's pixels, four bytes each, row by row.
pub open spec fn icon_pixels() -> Seq<u8> {
    Seq::new(
        4096,
        |i: int| pixel_byte(i / 4 % SIDE as int, i / 4 / SIDE as int, i % 4),
    )
}

/// The icon's pixels, four bytes each, row by row.
pub fn image() -> (rgba: Vec<u8>)
    ensures
        rgba@ == icon_pixels(),
        rgba.len() == SIDE * SIDE * 4,
{
    let mut rgba: Vec<u8> = Vec::new();
    let mut i: u32 = 0;
    while i < 1024
        invariant
            i <= 1024,
            rgba.len() == 4 * i,
            forall|k: int| 0 <= k < rgba.len() ==> #[trigger] rgba@[k] == icon_pixels()[k],
        decreases 1024 - i,
    {
        let x: u32 = i % SIDE;
        let y: u32 = i / SIDE;
        let edge = x < 3 || y < 3 || x >= SIDE - 3 || y >= SIDE - 3;
        let inner = 6 <= x && x < SIDE - 6 && 6 <= y && y < SIDE - 6;
        let (r, g, b, a): (u8, u8, u8, u8) = if edge {
            (0, 0, 0, 0)
        } else if inner {
            (0x0b, 0x0b, 0x0d, 0xff)
        } else {
            (0x4c, 0x8d, 0xff, 0xff)
        };
        rgba.push(r);
        rgba.push(g);
        rgba.push(b);
        rgba.push(a);
        i = i + 1;
    }
    assert(rgba@ =~= icon_pixels());
    rgba
}

/// The icon is a ring in the accent colour around a dark middle, on nothing: three
/// pixels of edge, three of ring.
pub proof fn law_what_the_icon_looks_like(x: int, y: int)
    requires
        0 <= x < 32,
        0 <= y < 32,
    ensures
        ({
            let at = |c: int| icon_pixels()[4 * (32 * y + x) + c];
            let inside = 3 <= x < 29 && 3 <= y < 29;
            let middle = 6 <= x < 26 && 6 <= y < 26;
            &&& !inside ==> at(0) == 0 && at(1) == 0 && at(2) == 0 && at(3) == 0
            &&& inside && middle ==> at(0) == 11 && at(1) == 11 && at(2) == 13 && at(3) == 255
            &&& inside && !middle ==> at(0) == 76 && at(1) == 141 && at(2) == 255 && at(3) == 255
        }),
        icon_pixels().len() == 4 * 32 * 32,
{
    let p = 32 * y + x;
    assert(p % 32 == x && p / 32 == y);
    assert forall|c: int| 0 <= c < 4 implies #[trigger] icon_pixels()[4 * p + c] == pixel_byte(
        x,
        y,
        c,
    ) by {
        assert((4 * p + c) / 4 == p && (4 * p + c) % 4 == c);
    }
}

} // verus!
