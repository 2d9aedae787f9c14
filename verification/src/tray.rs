//! What the system-tray item shows: its icon (a white `T` on blue, or on
//! grey while paused) and its menu labels. The tray service itself runs in
//! the binary.

use vstd::prelude::*;
use crate::text::{append_str, string_of};

verus! {

/// The tray item's id.
pub const TRAY_ID: &'static str = "typomorph";

/// The tray item's title.
pub const TRAY_TITLE: &'static str = "TypoMorph";

/// The label of the menu item that quits.
pub const QUIT_LABEL: &'static str = "Quit TypoMorph";

/// The icon's width and height in pixels.
pub const ICON_SIZE: usize = 22;

/// The pixel at column `x`, row `y` belongs to the `T`: its bar (rows 4-6,
/// columns 4-17) or its stem (rows 7-17, columns 9-12).
pub open spec fn in_letter(x: int, y: int) -> bool {
    (4 <= y <= 6 && 4 <= x <= 17) || (7 <= y <= 17 && 9 <= x <= 12)
}

/// The ARGB bytes of the pixel at column `x`, row `y`: opaque white in the
/// `T`, grey around it while paused, blue otherwise.
pub open spec fn pixel(x: int, y: int, paused: bool) -> Seq<u8> {
    if in_letter(x, y) {
        seq![255u8, 255u8, 255u8, 255u8]
    } else if paused {
        seq![255u8, 128u8, 128u8, 128u8]
    } else {
        seq![255u8, 33u8, 150u8, 243u8]
    }
}

/// Byte `i` of the icon: the pixels row by row, four ARGB bytes each.
pub open spec fn icon_byte(i: int, paused: bool) -> u8 {
    pixel((i / 4) % (ICON_SIZE as int), (i / 4) / (ICON_SIZE as int), paused)[i % 4]
}

/// The icon's ARGB bytes.
pub fn tray_icon_argb(paused: bool) -> (r: Vec<u8>)
    ensures
        r@.len() == ICON_SIZE * ICON_SIZE * 4,
        forall|i: int| 0 <= i < r@.len() ==> r@[i] == icon_byte(i, paused),
{
    let total: usize = ICON_SIZE * ICON_SIZE * 4;
    let mut out: Vec<u8> = Vec::new();
    let mut i: usize = 0;
    while i < total
        invariant
            total == ICON_SIZE * ICON_SIZE * 4,
            i <= total,
            out@.len() == i,
            forall|j: int| 0 <= j < i ==> out@[j] == icon_byte(j, paused),
        decreases total - i,
    {
        let p = i / 4;
        let x = p % ICON_SIZE;
        let y = p / ICON_SIZE;
        let channel = i % 4;
        let inside = (4 <= y && y <= 6 && 4 <= x && x <= 17) || (7 <= y && y <= 17 && 9 <= x && x <= 12);
        let byte: u8 = if channel == 0 {
            255
        } else if inside {
            255
        } else if paused {
            128
        } else if channel == 1 {
            33
        } else if channel == 2 {
            150
        } else {
            243
        };
        assert(byte == icon_byte(i as int, paused));
        out.push(byte);
        i = i + 1;
    }
    out
}

/// The tier part of the menu's header.
pub open spec fn tier_label(is_pro: bool) -> Seq<char> {
    if is_pro {
        "TypoMorph: Pro Tier"@
    } else {
        "TypoMorph: Free Tier"@
    }
}

/// The state part of the menu's header.
pub open spec fn state_label(paused: bool) -> Seq<char> {
    if paused {
        "Status: Paused"@
    } else {
        "Status: Active"@
    }
}

/// The menu's header: the tier, then the state in brackets.
pub fn tray_header_label(is_pro: bool, paused: bool) -> (r: String)
    ensures
        r@ == tier_label(is_pro) + " ("@ + state_label(paused) + ")"@,
{
    let mut out: Vec<char> = Vec::new();
    if is_pro {
        append_str(&mut out, "TypoMorph: Pro Tier");
    } else {
        append_str(&mut out, "TypoMorph: Free Tier");
    }
    append_str(&mut out, " (");
    if paused {
        append_str(&mut out, "Status: Paused");
    } else {
        append_str(&mut out, "Status: Active");
    }
    append_str(&mut out, ")");
    string_of(&out)
}

/// The label of the item that pauses or resumes correction.
pub fn tray_toggle_label(paused: bool) -> (r: &'static str)
    ensures
        r@ == (if paused {
            "Resume"@
        } else {
            "Pause"@
        }),
{
    if paused {
        "Resume"
    } else {
        "Pause"
    }
}

} // verus!
