use omni_kvm::keymap_macos::{hid_usage, modifier_down, modifier_flags, DEVICE_BITS};

#[test]
fn letters_and_controls() {
    assert_eq!(hid_usage(0x00), Some(0x04)); // A
    assert_eq!(hid_usage(0x06), Some(0x1D)); // Z
    assert_eq!(hid_usage(0x24), Some(0x28)); // Return
    assert_eq!(hid_usage(0x31), Some(0x2C)); // Space
    assert_eq!(hid_usage(0x7E), Some(0x52)); // Up
    assert_eq!(hid_usage(0x3F), None); // fn
}

#[test]
fn modifier_keys_match_their_flag_bits() {
    // Each modifier key (by its HID usage) is down exactly when its own
    // device-dependent bit is set, and the flags for its HID modifier
    // bit (1 << (usage - 0xE0)) contain that bit.
    for (keycode, flag) in [
        (0x3Bu16, 0x0001u64),
        (0x38, 0x0002),
        (0x3A, 0x0020),
        (0x37, 0x0008),
        (0x3E, 0x2000),
        (0x3C, 0x0004),
        (0x3D, 0x0040),
        (0x36, 0x0010),
    ] {
        let usage = hid_usage(keycode).unwrap();
        assert!(modifier_down(flag | 0x0010_0100, usage), "keycode {keycode:#x}");
        assert_eq!(modifier_flags(1 << (usage - 0xE0)) & DEVICE_BITS, flag, "keycode {keycode:#x}");
        for other in (0xE0..=0xE7).filter(|&u| u != usage) {
            assert!(!modifier_down(flag, other), "keycode {keycode:#x} is not {other:#x}");
        }
    }
}

#[test]
fn modifier_flags_include_the_device_independent_masks() {
    assert_eq!(modifier_flags(0x02), 0x0002_0002); // left Shift
    assert_eq!(modifier_flags(0x88), 0x0010_0018); // both Commands
    assert_eq!(modifier_flags(0), 0);
    // Without device-dependent bits, the device-independent mask decides.
    assert!(modifier_down(0x0002_0000, 0xE1));
    assert!(!modifier_down(0x0004_0000, 0xE1));
}
