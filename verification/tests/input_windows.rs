use omni_kvm::focus::{Entry, Event, Mode, Node};
use omni_kvm::hub::{Hub, Out};
use omni_kvm::input_windows::{
    Capture, VK_LWIN, VK_SCROLL, WM_LBUTTONDOWN, WM_LBUTTONUP, WM_MOUSEHWHEEL, WM_MOUSEWHEEL,
    WM_XBUTTONDOWN,
};
use omni_kvm::protocol::msg;

const VK_ESCAPE: u32 = 0x1B;
const VK_A: u32 = 0x41;
const VK_LSHIFT: u32 = 0xA0;
const WM_MOUSEMOVE: u32 = 0x0200;

/// A hub whose machine forwards the PC's input to the Mac, queue emptied.
fn forwarding_hub() -> Hub {
    let mut hub = Hub::new(Node::Pc);
    hub.handle(Event::BoardBack);
    hub.handle(Event::LinkUp);
    hub.handle(Event::Hotkey);
    hub.handle(Event::GateClosed(1));
    hub.handle(Event::SettleDone);
    assert_eq!(hub.lock().mode(), Mode::Unfocused);
    hub.take_queue();
    hub
}

fn inputs(out: &[Out]) -> Vec<(u8, [u8; 5])> {
    out.iter()
        .filter_map(|o| match o {
            Out::Input(t, p) => Some((*t, *p)),
            _ => None,
        })
        .collect()
}

#[test]
fn windows_hotkey_is_kept_from_everyone() {
    let mut hub = Hub::new(Node::Pc);
    hub.handle(Event::BoardBack);
    hub.handle(Event::LinkUp);
    hub.take_queue();
    let mut c = Capture::new();
    let g = hub.lock();
    // Win goes down: Windows gets it.
    assert_eq!(c.on_key(g, VK_LWIN, 0x5B, true, true, 100), (true, false));
    // Esc completes the hotkey: Windows does not get it, and the mask key
    // is tapped so that the Start menu stays shut.
    assert_eq!(c.on_key(g, VK_ESCAPE, 0x01, false, true, 110), (false, true));
    assert_eq!(g.mode(), Mode::Closing { confirmed: false });
    // Its repeat and its release are kept too.
    assert_eq!(c.on_key(g, VK_ESCAPE, 0x01, false, true, 140), (false, false));
    assert_eq!(c.on_key(g, VK_ESCAPE, 0x01, false, false, 150), (false, false));
    // Win going up was pressed here: Windows gets the release.
    assert_eq!(c.on_key(g, VK_LWIN, 0x5B, true, false, 160), (true, false));
    let out = hub.take_queue();
    assert!(inputs(&out).is_empty(), "nothing forwarded: {out:?}");
    assert!(out.iter().any(|o| matches!(o, Out::CloseGate(1))));
}

#[test]
fn scroll_lock_is_a_hotkey_of_its_own() {
    let mut hub = Hub::new(Node::Pc);
    hub.handle(Event::BoardBack);
    hub.handle(Event::LinkUp);
    hub.take_queue();
    let mut c = Capture::new();
    let g = hub.lock();
    assert_eq!(c.on_key(g, VK_SCROLL, 0x46, false, true, 5), (false, false));
    assert_eq!(g.mode(), Mode::Closing { confirmed: false });
}

#[test]
fn forwarded_keys_carry_the_forwarded_modifiers() {
    let mut hub = forwarding_hub();
    let mut c = Capture::new();
    {
        let g = hub.lock();
        assert_eq!(c.on_key(g, VK_LSHIFT, 0x2A, false, true, 10), (false, false));
        assert_eq!(c.on_key(g, VK_A, 0x1E, false, true, 20), (false, false));
        // An auto-repeat goes where the press went, and is not sent again:
        // the other computer repeats on its own.
        assert_eq!(c.on_key(g, VK_A, 0x1E, false, true, 50), (false, false));
        assert_eq!(c.on_key(g, VK_A, 0x1E, false, false, 60), (false, false));
        assert_eq!(c.on_key(g, VK_LSHIFT, 0x2A, false, false, 70), (false, false));
    }
    assert_eq!(
        inputs(&hub.take_queue()),
        vec![
            (msg::KEY_DOWN, [0xE1, 0x02, 0, 0, 0]),
            (msg::KEY_DOWN, [0x04, 0x02, 0, 0, 0]),
            (msg::KEY_UP, [0x04, 0x02, 0, 0, 0]),
            (msg::KEY_UP, [0xE1, 0x00, 0, 0, 0]),
        ]
    );
}

#[test]
fn a_key_down_long_after_counts_as_a_new_press() {
    let mut hub = forwarding_hub();
    let mut c = Capture::new();
    {
        let g = hub.lock();
        assert_eq!(c.on_key(g, VK_A, 0x1E, false, true, 1000), (false, false));
        // 2 s later: the release was never seen; it goes first.
        assert_eq!(c.on_key(g, VK_A, 0x1E, false, true, 3000), (false, false));
    }
    assert_eq!(
        inputs(&hub.take_queue()),
        vec![
            (msg::KEY_DOWN, [0x04, 0, 0, 0, 0]),
            (msg::KEY_UP, [0x04, 0, 0, 0, 0]),
            (msg::KEY_DOWN, [0x04, 0, 0, 0, 0]),
        ]
    );
}

#[test]
fn buttons_are_forwarded_as_movement_with_the_buttons_held() {
    let mut hub = forwarding_hub();
    let mut c = Capture::new();
    {
        let g = hub.lock();
        assert!(!c.on_mouse_hook(g, WM_LBUTTONDOWN, 0));
        assert!(!c.on_mouse_hook(g, WM_XBUTTONDOWN, 2 << 16)); // forward button
        assert!(!c.on_mouse_hook(g, WM_LBUTTONUP, 0));
    }
    assert_eq!(
        inputs(&hub.take_queue()),
        vec![
            (msg::MOUSE_MOVE, [0, 0, 0, 0, 0x01]),
            (msg::MOUSE_MOVE, [0, 0, 0, 0, 0x11]),
            (msg::MOUSE_MOVE, [0, 0, 0, 0, 0x10]),
        ]
    );
}

#[test]
fn wheel_movement_adds_up_to_notches() {
    let mut hub = forwarding_hub();
    let mut c = Capture::new();
    {
        let g = hub.lock();
        // Half a notch: nothing yet.
        assert!(!c.on_mouse_hook(g, WM_MOUSEWHEEL, 60 << 16));
        // The other half: one notch up.
        assert!(!c.on_mouse_hook(g, WM_MOUSEWHEEL, 60 << 16));
        // Two notches down (-240 in the high word).
        assert!(!c.on_mouse_hook(g, WM_MOUSEWHEEL, ((-240i32) as u32) << 16));
        // One notch right.
        assert!(!c.on_mouse_hook(g, WM_MOUSEHWHEEL, 120 << 16));
    }
    assert_eq!(
        inputs(&hub.take_queue()),
        vec![
            (msg::MOUSE_SCROLL, [1, 0, 0, 0, 0]),
            (msg::MOUSE_SCROLL, [0xFE, 0xFF, 0, 0, 0]),
            (msg::MOUSE_SCROLL, [0, 0, 1, 0, 0]),
        ]
    );
}

#[test]
fn raw_movement_is_forwarded_only_while_the_hooks_swallow_it() {
    let mut hub = forwarding_hub();
    let mut c = Capture::new();
    {
        let g = hub.lock();
        // Raw Input before the hooks decided: not sent.
        assert!(!c.on_raw_motion(g, 5, -3));
        assert!(!c.on_mouse_hook(g, WM_MOUSEMOVE, 0));
        assert!(!c.on_raw_motion(g, 5, -3));
        assert!(!c.on_raw_motion(g, 0, 0));
        // Beyond what an i16 holds: clamped.
        assert!(!c.on_raw_motion(g, 40000, 0));
    }
    assert_eq!(
        inputs(&hub.take_queue()),
        vec![(msg::MOUSE_MOVE, [5, 0, 0xFD, 0xFF, 0]), (msg::MOUSE_MOVE, [0xFF, 0x7F, 0, 0, 0])]
    );
}

#[test]
fn pushing_past_the_right_edge_switches_to_the_mac() {
    let mut hub = Hub::new(Node::Pc);
    hub.handle(Event::BoardBack);
    hub.handle(Event::LinkUp);
    hub.take_queue();
    let mut c = Capture::new();
    let g = hub.lock();
    let entry = Entry { height: 0x8000 };
    // Input is the PC's: movement is watched at the edge.
    assert!(c.on_raw_motion(g, 30, 0));
    c.watch_edge(g, 30, 1919, 1919, entry);
    assert_eq!(c.edge_push(), 30);
    assert_eq!(g.mode(), Mode::Split);
    // Away from the edge: start over.
    c.watch_edge(g, 30, 1000, 1919, entry);
    assert_eq!(c.edge_push(), 0);
    c.watch_edge(g, 30, 1919, 1919, entry);
    c.watch_edge(g, 25, 1919, 1919, entry);
    assert_eq!(c.edge_push(), 0);
    assert_eq!(g.mode(), Mode::Closing { confirmed: false });
    let out = hub.take_queue();
    assert!(matches!(out[0], Out::View(_, Some(Entry { height: 0x8000 }))));
}

#[test]
fn window_messages_match_the_windows_headers() {
    assert_eq!(WM_LBUTTONDOWN, windows_sys::Win32::UI::WindowsAndMessaging::WM_LBUTTONDOWN);
    assert_eq!(WM_LBUTTONUP, windows_sys::Win32::UI::WindowsAndMessaging::WM_LBUTTONUP);
    assert_eq!(omni_kvm::input_windows::WM_RBUTTONDOWN, windows_sys::Win32::UI::WindowsAndMessaging::WM_RBUTTONDOWN);
    assert_eq!(omni_kvm::input_windows::WM_RBUTTONUP, windows_sys::Win32::UI::WindowsAndMessaging::WM_RBUTTONUP);
    assert_eq!(omni_kvm::input_windows::WM_MBUTTONDOWN, windows_sys::Win32::UI::WindowsAndMessaging::WM_MBUTTONDOWN);
    assert_eq!(omni_kvm::input_windows::WM_MBUTTONUP, windows_sys::Win32::UI::WindowsAndMessaging::WM_MBUTTONUP);
    assert_eq!(WM_MOUSEWHEEL, windows_sys::Win32::UI::WindowsAndMessaging::WM_MOUSEWHEEL);
    assert_eq!(WM_XBUTTONDOWN, windows_sys::Win32::UI::WindowsAndMessaging::WM_XBUTTONDOWN);
    assert_eq!(omni_kvm::input_windows::WM_XBUTTONUP, windows_sys::Win32::UI::WindowsAndMessaging::WM_XBUTTONUP);
    assert_eq!(WM_MOUSEHWHEEL, windows_sys::Win32::UI::WindowsAndMessaging::WM_MOUSEHWHEEL);
    assert_eq!(WM_MOUSEMOVE, windows_sys::Win32::UI::WindowsAndMessaging::WM_MOUSEMOVE);
    assert_eq!(omni_kvm::input_windows::WHEEL_DELTA as u32, windows_sys::Win32::UI::WindowsAndMessaging::WHEEL_DELTA);
    assert_eq!(VK_SCROLL, windows_sys::Win32::UI::Input::KeyboardAndMouse::VK_SCROLL as u32);
    assert_eq!(VK_LWIN, windows_sys::Win32::UI::Input::KeyboardAndMouse::VK_LWIN as u32);
    assert_eq!(omni_kvm::input_windows::VK_RWIN, windows_sys::Win32::UI::Input::KeyboardAndMouse::VK_RWIN as u32);
}

#[test]
fn the_mask_key_is_tapped_once_per_windows_key_press() {
    let mut hub = Hub::new(Node::Pc);
    hub.handle(Event::BoardBack);
    hub.handle(Event::LinkUp);
    let mut c = Capture::new();
    let g = hub.lock();
    assert_eq!(c.on_key(g, VK_LWIN, 0x5B, true, true, 0), (true, false));
    // The hotkey is kept from Windows: tap the mask key.
    assert_eq!(c.on_key(g, VK_ESCAPE, 0x01, false, true, 10), (false, true));
    // Closing: the next key is kept from Windows too, but the Windows key
    // already saw another key.
    assert_eq!(c.on_key(g, VK_A, 0x1E, false, true, 20), (false, false));
    assert_eq!(c.on_key(g, VK_A, 0x1E, false, false, 30), (false, false));
    assert_eq!(c.on_key(g, VK_LWIN, 0x5B, true, false, 40), (true, false));
}
