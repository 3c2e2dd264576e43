use omni_kvm::focus::{Event, Mode, Node};
use omni_kvm::hub::{Hub, Out};
use omni_kvm::input_macos::{Capture, Delivery, LEFT_MOUSE_DOWN, LEFT_MOUSE_UP, OTHER_MOUSE_DOWN};
use omni_kvm::protocol::msg;

const KEY_A: u16 = 0x00;
const KEY_ESCAPE: u16 = 0x35;
const KEY_COMMAND: u16 = 0x37;
const KEY_SHIFT: u16 = 0x38;
const KEY_CAPS_LOCK: u16 = 0x39;
/// Left Command down: its device bit and the Command mask.
const COMMAND_DOWN: u64 = 0x0010_0008;
/// Left Shift down: its device bit and the Shift mask.
const SHIFT_DOWN: u64 = 0x0002_0002;

/// A hub whose machine forwards the Mac's input to the PC, queue emptied.
fn forwarding_hub() -> Hub {
    let mut hub = Hub::new(Node::Mac);
    hub.handle(Event::BoardBack);
    hub.handle(Event::LinkUp);
    hub.handle(Event::Hotkey);
    hub.handle(Event::GateClosed(1));
    hub.handle(Event::SettleDone);
    assert_eq!(hub.lock().mode(), Mode::Unfocused);
    hub.take_queue();
    hub
}

fn inputs(out: &[Out]) -> Vec<(u8, [u8; 5])> {
    out.iter()
        .filter_map(|o| match o {
            Out::Input(t, p) => Some((*t, *p)),
            _ => None,
        })
        .collect()
}

#[test]
fn command_escape_switches_and_escape_reaches_no_one() {
    let mut hub = Hub::new(Node::Mac);
    hub.handle(Event::BoardBack);
    hub.handle(Event::LinkUp);
    hub.take_queue();
    let mut c = Capture::new();
    let g = hub.lock();
    // Command passes to the Mac, with its own flags.
    assert_eq!(c.on_flags(g, KEY_COMMAND, COMMAND_DOWN), Delivery::Pass(COMMAND_DOWN));
    assert_eq!(c.on_key(g, KEY_ESCAPE, true, false), Delivery::Swallow);
    assert_eq!(g.mode(), Mode::Closing { confirmed: false });
    // Escape's repeats and release are kept too.
    assert_eq!(c.on_key(g, KEY_ESCAPE, true, true), Delivery::Swallow);
    assert_eq!(c.on_key(g, KEY_ESCAPE, false, false), Delivery::Swallow);
    // Command's release goes where its press went: to the Mac.
    assert_eq!(c.on_flags(g, KEY_COMMAND, 0), Delivery::Pass(0));
    assert!(inputs(&hub.take_queue()).is_empty());
}

#[test]
fn modifiers_passed_from_any_keyboard_are_added() {
    let mut hub = Hub::new(Node::Mac);
    let mut c = Capture::new();
    let g = hub.lock();
    assert_eq!(c.on_flags(g, KEY_SHIFT, SHIFT_DOWN), Delivery::Pass(SHIFT_DOWN));
    // A key typed on another keyboard gets the Shift held on this one.
    assert_eq!(c.on_key(g, KEY_A, true, false), Delivery::Pass(SHIFT_DOWN));
    assert_eq!(c.on_key(g, KEY_A, false, false), Delivery::Pass(SHIFT_DOWN));
    assert_eq!(c.on_flags(g, KEY_SHIFT, 0), Delivery::Pass(0));
    assert_eq!(c.on_key(g, KEY_A, true, false), Delivery::Pass(0));
    // macOS switched the tap off: what was passed is forgotten.
    assert_eq!(c.on_flags(g, KEY_SHIFT, SHIFT_DOWN), Delivery::Pass(SHIFT_DOWN));
    c.forget_passed_modifiers();
    assert_eq!(c.deliver(omni_kvm::focus::Route::Pass), Delivery::Pass(0));
}

#[test]
fn forwarded_mac_keys_carry_the_forwarded_modifiers() {
    let mut hub = forwarding_hub();
    let mut c = Capture::new();
    {
        let g = hub.lock();
        assert_eq!(c.on_flags(g, KEY_SHIFT, SHIFT_DOWN), Delivery::Swallow);
        assert_eq!(c.on_key(g, KEY_A, true, false), Delivery::Swallow);
        assert_eq!(c.on_key(g, KEY_A, true, true), Delivery::Swallow);
        assert_eq!(c.on_key(g, KEY_A, false, false), Delivery::Swallow);
        assert_eq!(c.on_flags(g, KEY_SHIFT, 0), Delivery::Swallow);
        // Caps Lock toggles: a press and a release for the other computer.
        assert_eq!(c.on_flags(g, KEY_CAPS_LOCK, 0x0001_0000), Delivery::Swallow);
    }
    assert_eq!(
        inputs(&hub.take_queue()),
        vec![
            (msg::KEY_DOWN, [0xE1, 0x02, 0, 0, 0]),
            (msg::KEY_DOWN, [0x04, 0x02, 0, 0, 0]),
            (msg::KEY_UP, [0x04, 0x02, 0, 0, 0]),
            (msg::KEY_UP, [0xE1, 0x00, 0, 0, 0]),
            (msg::KEY_DOWN, [0x39, 0x00, 0, 0, 0]),
            (msg::KEY_UP, [0x39, 0x00, 0, 0, 0]),
        ]
    );
}

#[test]
fn mac_buttons_are_forwarded_with_the_buttons_held() {
    let mut hub = forwarding_hub();
    let mut c = Capture::new();
    {
        let g = hub.lock();
        assert_eq!(c.on_button(g, LEFT_MOUSE_DOWN, 0), Delivery::Swallow);
        assert_eq!(c.on_button(g, OTHER_MOUSE_DOWN, 2), Delivery::Swallow); // middle
        assert_eq!(c.on_button(g, OTHER_MOUSE_DOWN, 7), Delivery::Swallow); // no bit for it
        assert_eq!(c.buttons(), 0x05);
        assert_eq!(c.on_button(g, LEFT_MOUSE_UP, 0), Delivery::Swallow);
    }
    assert_eq!(
        inputs(&hub.take_queue()),
        vec![
            (msg::MOUSE_MOVE, [0, 0, 0, 0, 0x01]),
            (msg::MOUSE_MOVE, [0, 0, 0, 0, 0x05]),
            (msg::MOUSE_MOVE, [0, 0, 0, 0, 0x04]),
        ]
    );
}

#[test]
fn a_button_on_the_mac_passes_with_its_modifiers() {
    let mut hub = Hub::new(Node::Mac);
    let mut c = Capture::new();
    let g = hub.lock();
    assert_eq!(c.on_flags(g, KEY_COMMAND, COMMAND_DOWN), Delivery::Pass(COMMAND_DOWN));
    assert_eq!(c.on_button(g, LEFT_MOUSE_DOWN, 0), Delivery::Pass(COMMAND_DOWN));
}
