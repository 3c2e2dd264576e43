//! macOS key codes to USB HID usage IDs (keyboard page 0x07), and the
//! Quartz event flags of the modifier keys.
//!
//! A Quartz keyboard event carries a *virtual key code* (the `kVK_*`
//! constants in Carbon's Events.h). Despite the name it identifies the
//! physical key, independent of the input source (ABC, 2-Set Korean, ...),
//! like a Windows scan code.
//!
//! Command is sent as GUI (the Windows key) and Option as Alt: the same
//! physical keys a Windows keyboard reports there, and what Apple
//! keyboards report over USB.

use vstd::prelude::*;

verus! {

/// The HID usage of a Mac key code, if the key is forwarded.
pub open spec fn usage_of_keycode(keycode: u16) -> Option<u8> {
    match keycode {
        0x00 => Some(0x04),  // A
        0x01 => Some(0x16),  // S
        0x02 => Some(0x07),  // D
        0x03 => Some(0x09),  // F
        0x04 => Some(0x0B),  // H
        0x05 => Some(0x0A),  // G
        0x06 => Some(0x1D),  // Z
        0x07 => Some(0x1B),  // X
        0x08 => Some(0x06),  // C
        0x09 => Some(0x19),  // V
        0x0A => Some(0x64),  // ISO section sign (next to Z on ISO keyboards: "non-US \")
        0x0B => Some(0x05),  // B
        0x0C => Some(0x14),  // Q
        0x0D => Some(0x1A),  // W
        0x0E => Some(0x08),  // E
        0x0F => Some(0x15),  // R
        0x10 => Some(0x1C),  // Y
        0x11 => Some(0x17),  // T
        0x12 => Some(0x1E),  // 1
        0x13 => Some(0x1F),  // 2
        0x14 => Some(0x20),  // 3
        0x15 => Some(0x21),  // 4
        0x16 => Some(0x23),  // 6
        0x17 => Some(0x22),  // 5
        0x18 => Some(0x2E),  // =
        0x19 => Some(0x26),  // 9
        0x1A => Some(0x24),  // 7
        0x1B => Some(0x2D),  // -
        0x1C => Some(0x25),  // 8
        0x1D => Some(0x27),  // 0
        0x1E => Some(0x30),  // ]
        0x1F => Some(0x12),  // O
        0x20 => Some(0x18),  // U
        0x21 => Some(0x2F),  // [
        0x22 => Some(0x0C),  // I
        0x23 => Some(0x13),  // P
        0x24 => Some(0x28),  // Return
        0x25 => Some(0x0F),  // L
        0x26 => Some(0x0D),  // J
        0x27 => Some(0x34),  // '
        0x28 => Some(0x0E),  // K
        0x29 => Some(0x33),  // ;
        0x2A => Some(0x31),  // \
        0x2B => Some(0x36),  // ,
        0x2C => Some(0x38),  // /
        0x2D => Some(0x11),  // N
        0x2E => Some(0x10),  // M
        0x2F => Some(0x37),  // .
        0x30 => Some(0x2B),  // Tab
        0x31 => Some(0x2C),  // Space
        0x32 => Some(0x35),  // `
        0x33 => Some(0x2A),  // Delete (Backspace)
        0x35 => Some(0x29),  // Escape
        0x36 => Some(0xE7),  // right Command -> right GUI
        0x37 => Some(0xE3),  // Command -> left GUI
        0x38 => Some(0xE1),  // Shift
        0x39 => Some(0x39),  // Caps Lock
        0x3A => Some(0xE2),  // Option -> left Alt
        0x3B => Some(0xE0),  // Control
        0x3C => Some(0xE5),  // right Shift
        0x3D => Some(0xE6),  // right Option -> right Alt
        0x3E => Some(0xE4),  // right Control
        0x40 => Some(0x6C),  // F17
        0x41 => Some(0x63),  // keypad .
        0x43 => Some(0x55),  // keypad *
        0x45 => Some(0x57),  // keypad +
        0x47 => Some(0x53),  // keypad Clear -> Num Lock
        0x48 => Some(0x80),  // Volume Up
        0x49 => Some(0x81),  // Volume Down
        0x4A => Some(0x7F),  // Mute
        0x4B => Some(0x54),  // keypad /
        0x4C => Some(0x58),  // keypad Enter
        0x4E => Some(0x56),  // keypad -
        0x4F => Some(0x6D),  // F18
        0x50 => Some(0x6E),  // F19
        0x51 => Some(0x67),  // keypad =
        0x52 => Some(0x62),  // keypad 0
        0x53 => Some(0x59),  // keypad 1
        0x54 => Some(0x5A),  // keypad 2
        0x55 => Some(0x5B),  // keypad 3
        0x56 => Some(0x5C),  // keypad 4
        0x57 => Some(0x5D),  // keypad 5
        0x58 => Some(0x5E),  // keypad 6
        0x59 => Some(0x5F),  // keypad 7
        0x5A => Some(0x6F),  // F20
        0x5B => Some(0x60),  // keypad 8
        0x5C => Some(0x61),  // keypad 9
        0x5D => Some(0x89),  // JIS Yen
        0x5E => Some(0x87),  // JIS _
        0x5F => Some(0x85),  // JIS keypad ,
        0x60 => Some(0x3E),  // F5
        0x61 => Some(0x3F),  // F6
        0x62 => Some(0x40),  // F7
        0x63 => Some(0x3C),  // F3
        0x64 => Some(0x41),  // F8
        0x65 => Some(0x42),  // F9
        0x66 => Some(0x91),  // JIS Eisu -> LANG2
        0x67 => Some(0x44),  // F11
        0x68 => Some(0x90),  // JIS Kana -> LANG1
        0x69 => Some(0x68),  // F13
        0x6A => Some(0x6B),  // F16
        0x6B => Some(0x69),  // F14
        0x6D => Some(0x43),  // F10
        0x6E => Some(0x65),  // context menu -> Application
        0x6F => Some(0x45),  // F12
        0x71 => Some(0x6A),  // F15
        0x72 => Some(0x49),  // Help -> Insert (same position)
        0x73 => Some(0x4A),  // Home
        0x74 => Some(0x4B),  // Page Up
        0x75 => Some(0x4C),  // Forward Delete
        0x76 => Some(0x3D),  // F4
        0x77 => Some(0x4D),  // End
        0x78 => Some(0x3B),  // F2
        0x79 => Some(0x4E),  // Page Down
        0x7A => Some(0x3A),  // F1
        0x7B => Some(0x50),  // Left
        0x7C => Some(0x4F),  // Right
        0x7D => Some(0x51),  // Down
        0x7E => Some(0x52),  // Up
        _ => None,  // incl. 0x3F fn
    }
}

/// Maps a key to its HID usage ID, or `None` for keys we don't forward
/// (fn, and codes no Mac keyboard sends).
pub fn hid_usage(keycode: u16) -> (r: Option<u8>)
    ensures
        r == usage_of_keycode(keycode),
{
    let usage: u8 = match keycode {
        0x00 => 0x04,  // A
        0x01 => 0x16,  // S
        0x02 => 0x07,  // D
        0x03 => 0x09,  // F
        0x04 => 0x0B,  // H
        0x05 => 0x0A,  // G
        0x06 => 0x1D,  // Z
        0x07 => 0x1B,  // X
        0x08 => 0x06,  // C
        0x09 => 0x19,  // V
        0x0A => 0x64,  // ISO section sign (next to Z on ISO keyboards: "non-US \")
        0x0B => 0x05,  // B
        0x0C => 0x14,  // Q
        0x0D => 0x1A,  // W
        0x0E => 0x08,  // E
        0x0F => 0x15,  // R
        0x10 => 0x1C,  // Y
        0x11 => 0x17,  // T
        0x12 => 0x1E,  // 1
        0x13 => 0x1F,  // 2
        0x14 => 0x20,  // 3
        0x15 => 0x21,  // 4
        0x16 => 0x23,  // 6
        0x17 => 0x22,  // 5
        0x18 => 0x2E,  // =
        0x19 => 0x26,  // 9
        0x1A => 0x24,  // 7
        0x1B => 0x2D,  // -
        0x1C => 0x25,  // 8
        0x1D => 0x27,  // 0
        0x1E => 0x30,  // ]
        0x1F => 0x12,  // O
        0x20 => 0x18,  // U
        0x21 => 0x2F,  // [
        0x22 => 0x0C,  // I
        0x23 => 0x13,  // P
        0x24 => 0x28,  // Return
        0x25 => 0x0F,  // L
        0x26 => 0x0D,  // J
        0x27 => 0x34,  // '
        0x28 => 0x0E,  // K
        0x29 => 0x33,  // ;
        0x2A => 0x31,  // \
        0x2B => 0x36,  // ,
        0x2C => 0x38,  // /
        0x2D => 0x11,  // N
        0x2E => 0x10,  // M
        0x2F => 0x37,  // .
        0x30 => 0x2B,  // Tab
        0x31 => 0x2C,  // Space
        0x32 => 0x35,  // `
        0x33 => 0x2A,  // Delete (Backspace)
        0x35 => 0x29,  // Escape
        0x36 => 0xE7,  // right Command -> right GUI
        0x37 => 0xE3,  // Command -> left GUI
        0x38 => 0xE1,  // Shift
        0x39 => 0x39,  // Caps Lock
        0x3A => 0xE2,  // Option -> left Alt
        0x3B => 0xE0,  // Control
        0x3C => 0xE5,  // right Shift
        0x3D => 0xE6,  // right Option -> right Alt
        0x3E => 0xE4,  // right Control
        0x40 => 0x6C,  // F17
        0x41 => 0x63,  // keypad .
        0x43 => 0x55,  // keypad *
        0x45 => 0x57,  // keypad +
        0x47 => 0x53,  // keypad Clear -> Num Lock
        0x48 => 0x80,  // Volume Up
        0x49 => 0x81,  // Volume Down
        0x4A => 0x7F,  // Mute
        0x4B => 0x54,  // keypad /
        0x4C => 0x58,  // keypad Enter
        0x4E => 0x56,  // keypad -
        0x4F => 0x6D,  // F18
        0x50 => 0x6E,  // F19
        0x51 => 0x67,  // keypad =
        0x52 => 0x62,  // keypad 0
        0x53 => 0x59,  // keypad 1
        0x54 => 0x5A,  // keypad 2
        0x55 => 0x5B,  // keypad 3
        0x56 => 0x5C,  // keypad 4
        0x57 => 0x5D,  // keypad 5
        0x58 => 0x5E,  // keypad 6
        0x59 => 0x5F,  // keypad 7
        0x5A => 0x6F,  // F20
        0x5B => 0x60,  // keypad 8
        0x5C => 0x61,  // keypad 9
        0x5D => 0x89,  // JIS Yen
        0x5E => 0x87,  // JIS _
        0x5F => 0x85,  // JIS keypad ,
        0x60 => 0x3E,  // F5
        0x61 => 0x3F,  // F6
        0x62 => 0x40,  // F7
        0x63 => 0x3C,  // F3
        0x64 => 0x41,  // F8
        0x65 => 0x42,  // F9
        0x66 => 0x91,  // JIS Eisu -> LANG2
        0x67 => 0x44,  // F11
        0x68 => 0x90,  // JIS Kana -> LANG1
        0x69 => 0x68,  // F13
        0x6A => 0x6B,  // F16
        0x6B => 0x69,  // F14
        0x6D => 0x43,  // F10
        0x6E => 0x65,  // context menu -> Application
        0x6F => 0x45,  // F12
        0x71 => 0x6A,  // F15
        0x72 => 0x49,  // Help -> Insert (same position)
        0x73 => 0x4A,  // Home
        0x74 => 0x4B,  // Page Up
        0x75 => 0x4C,  // Forward Delete
        0x76 => 0x3D,  // F4
        0x77 => 0x4D,  // End
        0x78 => 0x3B,  // F2
        0x79 => 0x4E,  // Page Down
        0x7A => 0x3A,  // F1
        0x7B => 0x50,  // Left
        0x7C => 0x4F,  // Right
        0x7D => 0x51,  // Down
        0x7E => 0x52,  // Up
        _ => return None,  // incl. 0x3F fn
    };
    Some(usage)
}


/// The device-dependent flag bit of the modifier with this bit in the HID
/// modifier byte: it tells left and right apart (NX_DEVICE*KEYMASK in
/// IOKit's IOLLEvent.h).
pub open spec fn device_flag(bit: u64) -> u64 {
    if bit == 0 {
        0x0000_0001  // left Control
    } else if bit == 1 {
        0x0000_0002  // left Shift
    } else if bit == 2 {
        0x0000_0020  // left Option -> left Alt
    } else if bit == 3 {
        0x0000_0008  // left Command -> left GUI
    } else if bit == 4 {
        0x0000_2000  // right Control
    } else if bit == 5 {
        0x0000_0004  // right Shift
    } else if bit == 6 {
        0x0000_0040  // right Option -> right Alt
    } else {
        0x0000_0010  // right Command -> right GUI
    }
}

/// The device-independent flag mask (kCGEventFlagMask*) of the modifier
/// with this bit in the HID modifier byte.
pub open spec fn independent_flag(bit: u64) -> u64 {
    if bit == 0 || bit == 4 {
        0x0004_0000  // Control
    } else if bit == 1 || bit == 5 {
        0x0002_0000  // Shift
    } else if bit == 2 || bit == 6 {
        0x0008_0000  // Option
    } else {
        0x0010_0000  // Command
    }
}

/// Every device-dependent flag bit.
pub const DEVICE_BITS: u64 = 0x207F;

/// The Quartz event flags of the modifier keys, in HID modifier-byte
/// order: (device-dependent bit, device-independent mask).
fn modifier_flag_pair(bit: u64) -> (r: (u64, u64))
    requires
        bit < 8,
    ensures
        r == (device_flag(bit), independent_flag(bit)),
{
    if bit == 0 {
        (0x0000_0001, 0x0004_0000)  // left Control
    } else if bit == 1 {
        (0x0000_0002, 0x0002_0000)  // left Shift
    } else if bit == 2 {
        (0x0000_0020, 0x0008_0000)  // left Option -> left Alt
    } else if bit == 3 {
        (0x0000_0008, 0x0010_0000)  // left Command -> left GUI
    } else if bit == 4 {
        (0x0000_2000, 0x0004_0000)  // right Control
    } else if bit == 5 {
        (0x0000_0004, 0x0002_0000)  // right Shift
    } else if bit == 6 {
        (0x0000_0040, 0x0008_0000)  // right Option -> right Alt
    } else {
        (0x0000_0010, 0x0010_0000)  // right Command -> right GUI
    }
}

/// Whether the modifier key with this HID usage is down by these event
/// flags: the device-dependent bit decides when the flags carry any; for a
/// keyboard whose events carry none, the device-independent mask does
/// (left and right then look the same).
pub open spec fn is_modifier_down(flags: u64, usage: u8) -> bool {
    let bit = (usage - 0xE0) as u64;
    if flags & DEVICE_BITS != 0 {
        flags & device_flag(bit) != 0
    } else {
        flags & independent_flag(bit) != 0
    }
}

/// Is the modifier key with this HID usage (0xE0..=0xE7) down, going by
/// the flags of the "flags changed" event that reports it? For a keyboard
/// whose events carry no device-dependent bits, the device-independent
/// ones decide (left and right then look the same).
pub fn modifier_down(flags: u64, usage: u8) -> (r: bool)
    requires
        0xE0 <= usage <= 0xE7,
    ensures
        r == is_modifier_down(flags, usage),
{
    let (device, independent) = modifier_flag_pair((usage - 0xE0) as u64);
    if flags & DEVICE_BITS != 0 {
        flags & device != 0
    } else {
        flags & independent != 0
    }
}

/// The flags one modifier bit contributes, if `modifiers` has it.
pub open spec fn flags_for_bit(modifiers: u8, bit: u64) -> u64 {
    if modifiers & (1u8 << (bit as u8)) != 0 {
        device_flag(bit) | independent_flag(bit)
    } else {
        0
    }
}

/// The flags of the modifiers among the first `n` bits of `modifiers`.
pub open spec fn flags_below(modifiers: u8, n: u64) -> u64
    decreases n,
{
    if n == 0 {
        0
    } else {
        flags_below(modifiers, (n - 1) as u64) | flags_for_bit(modifiers, (n - 1) as u64)
    }
}

/// The Quartz event flags for the modifiers in a HID modifier byte: both
/// flags of every modifier it has.
pub open spec fn flags_of_modifiers(modifiers: u8) -> u64 {
    flags_below(modifiers, 8)
}

/// The Quartz event flags for the modifiers in a HID modifier byte.
pub fn modifier_flags(modifiers: u8) -> (r: u64)
    ensures
        r == flags_of_modifiers(modifiers),
{
    let mut flags: u64 = 0;
    let mut bit: u64 = 0;
    while bit < 8
        invariant
            bit <= 8,
            flags == flags_below(modifiers, bit),
        decreases 8 - bit,
    {
        if modifiers & (1u8 << (bit as u8)) != 0 {
            let (device, independent) = modifier_flag_pair(bit);
            flags = flags | (device | independent);
        } else {
            assert(flags | 0 == flags) by (bit_vector);
        }
        assert(flags == flags_below(modifiers, (bit + 1) as u64));
        bit = bit + 1;
    }
    flags
}

/// The flags of a single modifier say exactly that modifier is down, by
/// its own device-dependent bit (left and right kept apart).
pub proof fn law_a_modifiers_flags_name_it_alone(k: u64, j: u64)
    requires
        k < 8,
        j < 8,
    ensures
        is_modifier_down(flags_of_modifiers((1u8 << (k as u8)) as u8), (0xE0 + j) as u8) <==> j == k,
        flags_of_modifiers((1u8 << (k as u8)) as u8) & DEVICE_BITS == device_flag(k),
{
    let m: u8 = (1u8 << (k as u8)) as u8;
    reveal_with_fuel(flags_below, 9);
    let f = flags_of_modifiers(m);
    assert(f == 0 | flags_for_bit(m, 0) | flags_for_bit(m, 1) | flags_for_bit(m, 2) | flags_for_bit(m, 3)
        | flags_for_bit(m, 4) | flags_for_bit(m, 5) | flags_for_bit(m, 6) | flags_for_bit(m, 7));
    assert(f == device_flag(k) | independent_flag(k)) by (bit_vector)
        requires
            k < 8,
            m == (1u8 << (k as u8)) as u8,
            f == 0 | flags_for_bit(m, 0) | flags_for_bit(m, 1) | flags_for_bit(m, 2) | flags_for_bit(m, 3)
                | flags_for_bit(m, 4) | flags_for_bit(m, 5) | flags_for_bit(m, 6) | flags_for_bit(m, 7),
    ;
    assert(f & DEVICE_BITS == device_flag(k)) by (bit_vector)
        requires
            k < 8,
            f == device_flag(k) | independent_flag(k),
    ;
    assert((f & device_flag(j) != 0) <==> j == k) by (bit_vector)
        requires
            k < 8,
            j < 8,
            f == device_flag(k) | independent_flag(k),
    ;
}

// ── the table read by usage ─────────────────────────────────────

/// The Mac key code of the key with each HID usage, by usage: the key
/// table read the other way round.
pub open spec fn keycode_of(usage: u8) -> Option<u16> {
    match usage {
        0x04 => Some(0x00),  // A
        0x05 => Some(0x0B),  // B
        0x06 => Some(0x08),  // C
        0x07 => Some(0x02),  // D
        0x08 => Some(0x0E),  // E
        0x09 => Some(0x03),  // F
        0x0A => Some(0x05),  // G
        0x0B => Some(0x04),  // H
        0x0C => Some(0x22),  // I
        0x0D => Some(0x26),  // J
        0x0E => Some(0x28),  // K
        0x0F => Some(0x25),  // L
        0x10 => Some(0x2E),  // M
        0x11 => Some(0x2D),  // N
        0x12 => Some(0x1F),  // O
        0x13 => Some(0x23),  // P
        0x14 => Some(0x0C),  // Q
        0x15 => Some(0x0F),  // R
        0x16 => Some(0x01),  // S
        0x17 => Some(0x11),  // T
        0x18 => Some(0x20),  // U
        0x19 => Some(0x09),  // V
        0x1A => Some(0x0D),  // W
        0x1B => Some(0x07),  // X
        0x1C => Some(0x10),  // Y
        0x1D => Some(0x06),  // Z
        0x1E => Some(0x12),  // 1
        0x1F => Some(0x13),  // 2
        0x20 => Some(0x14),  // 3
        0x21 => Some(0x15),  // 4
        0x22 => Some(0x17),  // 5
        0x23 => Some(0x16),  // 6
        0x24 => Some(0x1A),  // 7
        0x25 => Some(0x1C),  // 8
        0x26 => Some(0x19),  // 9
        0x27 => Some(0x1D),  // 0
        0x28 => Some(0x24),  // Return
        0x29 => Some(0x35),  // Escape
        0x2A => Some(0x33),  // Delete (Backspace)
        0x2B => Some(0x30),  // Tab
        0x2C => Some(0x31),  // Space
        0x2D => Some(0x1B),  // -
        0x2E => Some(0x18),  // =
        0x2F => Some(0x21),  // [
        0x30 => Some(0x1E),  // ]
        0x31 => Some(0x2A),  // \
        0x33 => Some(0x29),  // ;
        0x34 => Some(0x27),  // '
        0x35 => Some(0x32),  // `
        0x36 => Some(0x2B),  // ,
        0x37 => Some(0x2F),  // .
        0x38 => Some(0x2C),  // /
        0x39 => Some(0x39),  // Caps Lock
        0x3A => Some(0x7A),  // F1
        0x3B => Some(0x78),  // F2
        0x3C => Some(0x63),  // F3
        0x3D => Some(0x76),  // F4
        0x3E => Some(0x60),  // F5
        0x3F => Some(0x61),  // F6
        0x40 => Some(0x62),  // F7
        0x41 => Some(0x64),  // F8
        0x42 => Some(0x65),  // F9
        0x43 => Some(0x6D),  // F10
        0x44 => Some(0x67),  // F11
        0x45 => Some(0x6F),  // F12
        0x49 => Some(0x72),  // Help -> Insert (same position)
        0x4A => Some(0x73),  // Home
        0x4B => Some(0x74),  // Page Up
        0x4C => Some(0x75),  // Forward Delete
        0x4D => Some(0x77),  // End
        0x4E => Some(0x79),  // Page Down
        0x4F => Some(0x7C),  // Right
        0x50 => Some(0x7B),  // Left
        0x51 => Some(0x7D),  // Down
        0x52 => Some(0x7E),  // Up
        0x53 => Some(0x47),  // keypad Clear -> Num Lock
        0x54 => Some(0x4B),  // keypad /
        0x55 => Some(0x43),  // keypad *
        0x56 => Some(0x4E),  // keypad -
        0x57 => Some(0x45),  // keypad +
        0x58 => Some(0x4C),  // keypad Enter
        0x59 => Some(0x53),  // keypad 1
        0x5A => Some(0x54),  // keypad 2
        0x5B => Some(0x55),  // keypad 3
        0x5C => Some(0x56),  // keypad 4
        0x5D => Some(0x57),  // keypad 5
        0x5E => Some(0x58),  // keypad 6
        0x5F => Some(0x59),  // keypad 7
        0x60 => Some(0x5B),  // keypad 8
        0x61 => Some(0x5C),  // keypad 9
        0x62 => Some(0x52),  // keypad 0
        0x63 => Some(0x41),  // keypad .
        0x64 => Some(0x0A),  // ISO section sign (next to Z on ISO keyboards: "non-US \")
        0x65 => Some(0x6E),  // context menu -> Application
        0x67 => Some(0x51),  // keypad =
        0x68 => Some(0x69),  // F13
        0x69 => Some(0x6B),  // F14
        0x6A => Some(0x71),  // F15
        0x6B => Some(0x6A),  // F16
        0x6C => Some(0x40),  // F17
        0x6D => Some(0x4F),  // F18
        0x6E => Some(0x50),  // F19
        0x6F => Some(0x5A),  // F20
        0x7F => Some(0x4A),  // Mute
        0x80 => Some(0x48),  // Volume Up
        0x81 => Some(0x49),  // Volume Down
        0x85 => Some(0x5F),  // JIS keypad ,
        0x87 => Some(0x5E),  // JIS _
        0x89 => Some(0x5D),  // JIS Yen
        0x90 => Some(0x68),  // JIS Kana -> LANG1
        0x91 => Some(0x66),  // JIS Eisu -> LANG2
        0xE0 => Some(0x3B),  // Control
        0xE1 => Some(0x38),  // Shift
        0xE2 => Some(0x3A),  // Option -> left Alt
        0xE3 => Some(0x37),  // Command -> left GUI
        0xE4 => Some(0x3E),  // right Control
        0xE5 => Some(0x3C),  // right Shift
        0xE6 => Some(0x3D),  // right Option -> right Alt
        0xE7 => Some(0x36),  // right Command -> right GUI
        _ => None,
    }
}

/// The key table names each key once, and as the HID usage table does:
/// read by usage it gives back the key code, and every key listed by usage
/// is found by its key code. So no two keys share a usage, and each key
/// types what its key cap says on the other computer.
pub proof fn law_key_codes_and_usages_agree(keycode: u16, usage: u8)
    ensures
        usage_of_keycode(keycode) == Some(usage) ==> keycode_of(usage) == Some(keycode),
        keycode_of(usage) == Some(keycode) ==> usage_of_keycode(keycode) == Some(usage),
{
}

} // verus!
