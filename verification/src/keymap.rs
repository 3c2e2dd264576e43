//! Windows key identity to USB HID usage IDs (keyboard page 0x07).
//!
//! The low-level keyboard hook reports each key's *scan code* (the
//! physical key position, independent of the active layout or IME) plus
//! an "extended" flag that tells keys sharing a scan code apart (Enter vs
//! keypad Enter, the arrow keys vs keypad 8/4/6/2, ...). A few keys are
//! easier to recognize by their virtual-key code.

use vstd::prelude::*;

verus! {

/// The usage of a key recognized by its virtual-key code, if it is one.
pub open spec fn usage_by_vk(vk: u32) -> Option<u8> {
    match vk {
        0x13 => Some(0x48),  // VK_PAUSE
        0x90 => Some(0x53),  // VK_NUMLOCK
        0x2C => Some(0x46),  // VK_SNAPSHOT (Print Screen)
        0x15 => Some(0x90),  // VK_HANGUL (Han/Yeong) -> LANG1
        0x19 => Some(0x91),  // VK_HANJA (Hanja) -> LANG2
        _ => None,
    }
}

/// The usage of an extended key by its scan code.
pub open spec fn usage_by_extended_scan(scan: u32) -> Option<u8> {
    match scan {
        0x1C => Some(0x58),  // keypad Enter
        0x1D => Some(0xE4),  // right Ctrl
        0x35 => Some(0x54),  // keypad /
        0x38 => Some(0xE6),  // right Alt
        0x47 => Some(0x4A),  // Home
        0x48 => Some(0x52),  // Up
        0x49 => Some(0x4B),  // Page Up
        0x4B => Some(0x50),  // Left
        0x4D => Some(0x4F),  // Right
        0x4F => Some(0x4D),  // End
        0x50 => Some(0x51),  // Down
        0x51 => Some(0x4E),  // Page Down
        0x52 => Some(0x49),  // Insert
        0x53 => Some(0x4C),  // Delete
        0x5B => Some(0xE3),  // left Windows -> left GUI (Command on a Mac)
        0x5C => Some(0xE7),  // right Windows -> right GUI
        0x5D => Some(0x65),  // Menu (Application)
        0x36 => Some(0xE5),  // right Shift (some keyboards report it as extended)
        _ => None,
    }
}

/// The usage of a key that is not extended, by its scan code.
pub open spec fn usage_by_scan(scan: u32) -> Option<u8> {
    if 0x02 <= scan <= 0x0A {
        Some((0x1E + (scan - 0x02)) as u8)  // 1..9
    } else if 0x3B <= scan <= 0x44 {
        Some((0x3A + (scan - 0x3B)) as u8)  // F1..F10
    } else {
        usage_by_other_scan(scan)
    }
}

/// The usage of a key that is not extended and not a digit or F1..F10, by
/// its scan code.
pub open spec fn usage_by_other_scan(scan: u32) -> Option<u8> {
    match scan {
        0x01 => Some(0x29),  // Esc
        0x0B => Some(0x27),  // 0
        0x0C => Some(0x2D),  // -
        0x0D => Some(0x2E),  // =
        0x0E => Some(0x2A),  // Backspace
        0x0F => Some(0x2B),  // Tab
        0x10 => Some(0x14),  // Q
        0x11 => Some(0x1A),  // W
        0x12 => Some(0x08),  // E
        0x13 => Some(0x15),  // R
        0x14 => Some(0x17),  // T
        0x15 => Some(0x1C),  // Y
        0x16 => Some(0x18),  // U
        0x17 => Some(0x0C),  // I
        0x18 => Some(0x12),  // O
        0x19 => Some(0x13),  // P
        0x1A => Some(0x2F),  // [
        0x1B => Some(0x30),  // ]
        0x1C => Some(0x28),  // Enter
        0x1D => Some(0xE0),  // left Ctrl
        0x1E => Some(0x04),  // A
        0x1F => Some(0x16),  // S
        0x20 => Some(0x07),  // D
        0x21 => Some(0x09),  // F
        0x22 => Some(0x0A),  // G
        0x23 => Some(0x0B),  // H
        0x24 => Some(0x0D),  // J
        0x25 => Some(0x0E),  // K
        0x26 => Some(0x0F),  // L
        0x27 => Some(0x33),  // ;
        0x28 => Some(0x34),  // '
        0x29 => Some(0x35),  // `
        0x2A => Some(0xE1),  // left Shift
        0x2B => Some(0x31),  // backslash
        0x2C => Some(0x1D),  // Z
        0x2D => Some(0x1B),  // X
        0x2E => Some(0x06),  // C
        0x2F => Some(0x19),  // V
        0x30 => Some(0x05),  // B
        0x31 => Some(0x11),  // N
        0x32 => Some(0x10),  // M
        0x33 => Some(0x36),  // ,
        0x34 => Some(0x37),  // .
        0x35 => Some(0x38),  // /
        0x36 => Some(0xE5),  // right Shift
        0x37 => Some(0x55),  // keypad *
        0x38 => Some(0xE2),  // left Alt -> left Alt (Option on a Mac)
        0x39 => Some(0x2C),  // Space
        0x3A => Some(0x39),  // Caps Lock
        0x46 => Some(0x47),  // Scroll Lock
        0x47 => Some(0x5F),  // keypad 7
        0x48 => Some(0x60),  // keypad 8
        0x49 => Some(0x61),  // keypad 9
        0x4A => Some(0x56),  // keypad -
        0x4B => Some(0x5C),  // keypad 4
        0x4C => Some(0x5D),  // keypad 5
        0x4D => Some(0x5E),  // keypad 6
        0x4E => Some(0x57),  // keypad +
        0x4F => Some(0x59),  // keypad 1
        0x50 => Some(0x5A),  // keypad 2
        0x51 => Some(0x5B),  // keypad 3
        0x52 => Some(0x62),  // keypad 0
        0x53 => Some(0x63),  // keypad .
        0x56 => Some(0x64),  // the extra key next to left Shift on ISO keyboards
        0x57 => Some(0x44),  // F11
        0x58 => Some(0x45),  // F12
        _ => None,
    }
}

/// A key's usage: by virtual-key code for the few keys better known by
/// it, otherwise by scan code and the extended flag.
pub open spec fn usage_of_key(vk: u32, scan: u32, extended: bool) -> Option<u8> {
    match usage_by_vk(vk) {
        Some(usage) => Some(usage),
        None => if extended {
            usage_by_extended_scan(scan)
        } else {
            usage_by_scan(scan)
        },
    }
}

/// Maps a key to its HID usage ID, or `None` for keys we don't forward.
pub fn hid_usage(vk: u32, scan: u32, extended: bool) -> (r: Option<u8>)
    ensures
        r == usage_of_key(vk, scan, extended),
{
    // Keys better identified by virtual-key code.
    match vk {
        0x13 => return Some(0x48),  // VK_PAUSE
        0x90 => return Some(0x53),  // VK_NUMLOCK
        0x2C => return Some(0x46),  // VK_SNAPSHOT (Print Screen)
        0x15 => return Some(0x90),  // VK_HANGUL (Han/Yeong) -> LANG1
        0x19 => return Some(0x91),  // VK_HANJA (Hanja) -> LANG2
        _ => {},
    }
    let usage: u8 = if extended {
        match scan {
            0x1C => 0x58,  // keypad Enter
            0x1D => 0xE4,  // right Ctrl
            0x35 => 0x54,  // keypad /
            0x38 => 0xE6,  // right Alt
            0x47 => 0x4A,  // Home
            0x48 => 0x52,  // Up
            0x49 => 0x4B,  // Page Up
            0x4B => 0x50,  // Left
            0x4D => 0x4F,  // Right
            0x4F => 0x4D,  // End
            0x50 => 0x51,  // Down
            0x51 => 0x4E,  // Page Down
            0x52 => 0x49,  // Insert
            0x53 => 0x4C,  // Delete
            0x5B => 0xE3,  // left Windows -> left GUI (Command on a Mac)
            0x5C => 0xE7,  // right Windows -> right GUI
            0x5D => 0x65,  // Menu (Application)
            0x36 => 0xE5,  // right Shift (some keyboards report it as extended)
            _ => return None,
        }
    } else {
        match scan {
            0x01 => 0x29,  // Esc
            0x02..=0x0A => 0x1E + (scan - 0x02) as u8,  // 1..9
            0x0B => 0x27,  // 0
            0x0C => 0x2D,  // -
            0x0D => 0x2E,  // =
            0x0E => 0x2A,  // Backspace
            0x0F => 0x2B,  // Tab
            0x10 => 0x14,  // Q
            0x11 => 0x1A,  // W
            0x12 => 0x08,  // E
            0x13 => 0x15,  // R
            0x14 => 0x17,  // T
            0x15 => 0x1C,  // Y
            0x16 => 0x18,  // U
            0x17 => 0x0C,  // I
            0x18 => 0x12,  // O
            0x19 => 0x13,  // P
            0x1A => 0x2F,  // [
            0x1B => 0x30,  // ]
            0x1C => 0x28,  // Enter
            0x1D => 0xE0,  // left Ctrl
            0x1E => 0x04,  // A
            0x1F => 0x16,  // S
            0x20 => 0x07,  // D
            0x21 => 0x09,  // F
            0x22 => 0x0A,  // G
            0x23 => 0x0B,  // H
            0x24 => 0x0D,  // J
            0x25 => 0x0E,  // K
            0x26 => 0x0F,  // L
            0x27 => 0x33,  // ;
            0x28 => 0x34,  // '
            0x29 => 0x35,  // `
            0x2A => 0xE1,  // left Shift
            0x2B => 0x31,  // backslash
            0x2C => 0x1D,  // Z
            0x2D => 0x1B,  // X
            0x2E => 0x06,  // C
            0x2F => 0x19,  // V
            0x30 => 0x05,  // B
            0x31 => 0x11,  // N
            0x32 => 0x10,  // M
            0x33 => 0x36,  // ,
            0x34 => 0x37,  // .
            0x35 => 0x38,  // /
            0x36 => 0xE5,  // right Shift
            0x37 => 0x55,  // keypad *
            0x38 => 0xE2,  // left Alt -> left Alt (Option on a Mac)
            0x39 => 0x2C,  // Space
            0x3A => 0x39,  // Caps Lock
            0x3B..=0x44 => 0x3A + (scan - 0x3B) as u8,  // F1..F10
            0x46 => 0x47,  // Scroll Lock
            0x47 => 0x5F,  // keypad 7
            0x48 => 0x60,  // keypad 8
            0x49 => 0x61,  // keypad 9
            0x4A => 0x56,  // keypad -
            0x4B => 0x5C,  // keypad 4
            0x4C => 0x5D,  // keypad 5
            0x4D => 0x5E,  // keypad 6
            0x4E => 0x57,  // keypad +
            0x4F => 0x59,  // keypad 1
            0x50 => 0x5A,  // keypad 2
            0x51 => 0x5B,  // keypad 3
            0x52 => 0x62,  // keypad 0
            0x53 => 0x63,  // keypad .
            0x56 => 0x64,  // the extra key next to left Shift on ISO keyboards
            0x57 => 0x44,  // F11
            0x58 => 0x45,  // F12
            _ => return None,
        }
    };
    Some(usage)
}

/// For modifier keys (HID 0xE0..=0xE7), the bit in the HID modifier byte.
pub fn modifier_bit(usage: u8) -> (r: Option<u8>)
    ensures
        r == crate::input::modifier_mask(usage),
{
    if 0xE0 <= usage && usage <= 0xE7 {
        Some(1u8 << (usage - 0xE0))
    } else {
        None
    }
}

// ── the tables read by usage ────────────────────────────────────

/// The scan code (Set 1, not extended) of the key with each HID usage,
/// by usage: the keyboard's layout read the other way round.
pub open spec fn plain_scan_of(usage: u8) -> Option<u32> {
    match usage {
        0x04 => Some(0x1E),  // A
        0x05 => Some(0x30),  // B
        0x06 => Some(0x2E),  // C
        0x07 => Some(0x20),  // D
        0x08 => Some(0x12),  // E
        0x09 => Some(0x21),  // F
        0x0A => Some(0x22),  // G
        0x0B => Some(0x23),  // H
        0x0C => Some(0x17),  // I
        0x0D => Some(0x24),  // J
        0x0E => Some(0x25),  // K
        0x0F => Some(0x26),  // L
        0x10 => Some(0x32),  // M
        0x11 => Some(0x31),  // N
        0x12 => Some(0x18),  // O
        0x13 => Some(0x19),  // P
        0x14 => Some(0x10),  // Q
        0x15 => Some(0x13),  // R
        0x16 => Some(0x1F),  // S
        0x17 => Some(0x14),  // T
        0x18 => Some(0x16),  // U
        0x19 => Some(0x2F),  // V
        0x1A => Some(0x11),  // W
        0x1B => Some(0x2D),  // X
        0x1C => Some(0x15),  // Y
        0x1D => Some(0x2C),  // Z
        0x1E => Some(0x02),  // digit 1
        0x1F => Some(0x03),  // digit 2
        0x20 => Some(0x04),  // digit 3
        0x21 => Some(0x05),  // digit 4
        0x22 => Some(0x06),  // digit 5
        0x23 => Some(0x07),  // digit 6
        0x24 => Some(0x08),  // digit 7
        0x25 => Some(0x09),  // digit 8
        0x26 => Some(0x0A),  // digit 9
        0x27 => Some(0x0B),  // 0
        0x28 => Some(0x1C),  // Enter
        0x29 => Some(0x01),  // Esc
        0x2A => Some(0x0E),  // Backspace
        0x2B => Some(0x0F),  // Tab
        0x2C => Some(0x39),  // Space
        0x2D => Some(0x0C),  // -
        0x2E => Some(0x0D),  // =
        0x2F => Some(0x1A),  // [
        0x30 => Some(0x1B),  // ]
        0x31 => Some(0x2B),  // backslash
        0x33 => Some(0x27),  // ;
        0x34 => Some(0x28),  // '
        0x35 => Some(0x29),  // `
        0x36 => Some(0x33),  // ,
        0x37 => Some(0x34),  // .
        0x38 => Some(0x35),  // /
        0x39 => Some(0x3A),  // Caps Lock
        0x3A => Some(0x3B),  // F1
        0x3B => Some(0x3C),  // F2
        0x3C => Some(0x3D),  // F3
        0x3D => Some(0x3E),  // F4
        0x3E => Some(0x3F),  // F5
        0x3F => Some(0x40),  // F6
        0x40 => Some(0x41),  // F7
        0x41 => Some(0x42),  // F8
        0x42 => Some(0x43),  // F9
        0x43 => Some(0x44),  // F10
        0x44 => Some(0x57),  // F11
        0x45 => Some(0x58),  // F12
        0x47 => Some(0x46),  // Scroll Lock
        0x55 => Some(0x37),  // keypad *
        0x56 => Some(0x4A),  // keypad -
        0x57 => Some(0x4E),  // keypad +
        0x59 => Some(0x4F),  // keypad 1
        0x5A => Some(0x50),  // keypad 2
        0x5B => Some(0x51),  // keypad 3
        0x5C => Some(0x4B),  // keypad 4
        0x5D => Some(0x4C),  // keypad 5
        0x5E => Some(0x4D),  // keypad 6
        0x5F => Some(0x47),  // keypad 7
        0x60 => Some(0x48),  // keypad 8
        0x61 => Some(0x49),  // keypad 9
        0x62 => Some(0x52),  // keypad 0
        0x63 => Some(0x53),  // keypad .
        0x64 => Some(0x56),  // the extra key next to left Shift on ISO keyboards
        0xE0 => Some(0x1D),  // left Ctrl
        0xE1 => Some(0x2A),  // left Shift
        0xE2 => Some(0x38),  // left Alt -> left Alt (Option on a Mac)
        0xE5 => Some(0x36),  // right Shift
        _ => None,
    }
}

/// The extended scan code of the key with each HID usage, by usage.
pub open spec fn extended_scan_of(usage: u8) -> Option<u32> {
    match usage {
        0x49 => Some(0x52),  // Insert
        0x4A => Some(0x47),  // Home
        0x4B => Some(0x49),  // Page Up
        0x4C => Some(0x53),  // Delete
        0x4D => Some(0x4F),  // End
        0x4E => Some(0x51),  // Page Down
        0x4F => Some(0x4D),  // Right
        0x50 => Some(0x4B),  // Left
        0x51 => Some(0x50),  // Down
        0x52 => Some(0x48),  // Up
        0x54 => Some(0x35),  // keypad /
        0x58 => Some(0x1C),  // keypad Enter
        0x65 => Some(0x5D),  // Menu (Application)
        0xE3 => Some(0x5B),  // left Windows -> left GUI (Command on a Mac)
        0xE4 => Some(0x1D),  // right Ctrl
        0xE5 => Some(0x36),  // right Shift (some keyboards report it as extended)
        0xE6 => Some(0x38),  // right Alt
        0xE7 => Some(0x5C),  // right Windows -> right GUI
        _ => None,
    }
}

/// The virtual-key code of the keys known by it, by HID usage.
pub open spec fn vk_of(usage: u8) -> Option<u32> {
    match usage {
        0x46 => Some(0x2C),  // VK_SNAPSHOT (Print Screen)
        0x48 => Some(0x13),  // VK_PAUSE
        0x53 => Some(0x90),  // VK_NUMLOCK
        0x90 => Some(0x15),  // VK_HANGUL (Han/Yeong) -> LANG1
        0x91 => Some(0x19),  // VK_HANJA (Hanja) -> LANG2
        _ => None,
    }
}

/// The scan-code tables name each key once, and as the HID usage table
/// does: read by usage they give back the scan code, and every key listed
/// by usage is found by its scan code. So no two keys share a usage, and
/// each key types what its key cap says on the other computer.
pub proof fn law_scan_codes_and_usages_agree(scan: u32, usage: u8)
    ensures
        usage_by_scan(scan) == Some(usage) ==> plain_scan_of(usage) == Some(scan),
        plain_scan_of(usage) == Some(scan) ==> usage_by_scan(scan) == Some(usage),
        usage_by_extended_scan(scan) == Some(usage) ==> extended_scan_of(usage) == Some(scan),
        extended_scan_of(usage) == Some(scan) ==> usage_by_extended_scan(scan) == Some(usage),
        usage_by_vk(scan) == Some(usage) ==> vk_of(usage) == Some(scan),
        vk_of(usage) == Some(scan) ==> usage_by_vk(scan) == Some(usage),
{
}

} // verus!
