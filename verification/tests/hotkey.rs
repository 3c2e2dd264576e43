use omni_kvm::hotkey::Watch;

const LEFT_GUI: u8 = 0xE3;
const RIGHT_GUI: u8 = 0xE7;
const ESCAPE: u8 = 0x29;
const TAB: u8 = 0x2B;
const LEFT_SHIFT: u8 = 0xE1;

#[test]
fn gui_then_escape() {
    let mut w = Watch::default();
    assert!(!w.press(Some(LEFT_GUI)));
    assert!(w.press(Some(ESCAPE)));
    assert!(!w.press(Some(ESCAPE)), "once per GUI press");
    w.release(Some(LEFT_GUI));
    assert!(!w.press(Some(RIGHT_GUI)));
    assert!(w.press(Some(ESCAPE)), "right GUI too");
}

#[test]
fn another_key_in_between_does_not_count() {
    let mut w = Watch::default();
    w.press(Some(LEFT_GUI));
    w.press(Some(TAB)); // Win+Tab / Cmd+Tab
    assert!(!w.press(Some(ESCAPE)), "Escape closes the switcher instead");
}

#[test]
fn needs_gui_held() {
    let mut w = Watch::default();
    assert!(!w.press(Some(ESCAPE)));
    w.press(Some(LEFT_GUI));
    w.release(Some(LEFT_GUI));
    assert!(!w.press(Some(ESCAPE)));
    assert!(!w.press(None), "keys without a usage count as other keys");
}

#[test]
fn keys_held_before_gui_do_not_matter() {
    let mut w = Watch::default();
    w.press(Some(LEFT_SHIFT));
    w.press(Some(LEFT_GUI));
    assert!(w.press(Some(ESCAPE)));
}

#[test]
fn releasing_one_of_two_gui_keys_keeps_the_hotkey() {
    let mut w = Watch::default();
    w.press(Some(LEFT_GUI));
    w.press(Some(RIGHT_GUI));
    w.release(Some(LEFT_GUI));
    assert!(w.press(Some(ESCAPE)));
}

#[test]
fn letting_go_of_the_only_gui_key_ends_the_chance() {
    let mut w = Watch::default();
    assert!(!w.press(Some(0x29)));
    w.press(Some(0xE3));
    w.release(Some(0xE3));
    assert!(!w.press(Some(0x29)));
    assert!(!w.press(None));
    // Pressed again with a GUI key still held on the other side: it counts.
    w.press(Some(0xE7));
    w.press(Some(0xE3));
    w.release(Some(0xE3));
    assert!(w.press(Some(0x29)), "right GUI still held, nothing else since");
}
