use omni_kvm::focus::{Action, Entry, Event, Holder, Machine, Mode, Node, Pointer, Route, View};

fn view(epoch: u32, decider: Node, holder: Holder) -> View {
    View { epoch, decider, holder }
}

#[test]
fn views_are_totally_ordered() {
    let a = view(3, Node::Mac, Holder::At(Node::Pc));
    let b = view(3, Node::Pc, Holder::At(Node::Mac));
    assert!(b.is_newer_than(&a), "same epoch: the PC's decision wins");
    assert!(view(4, Node::Mac, Holder::Split).is_newer_than(&b), "higher epoch wins");
    let c = view(1, Node::Pc, Holder::Split);
    let d = view(1, Node::Pc, Holder::At(Node::Mac));
    assert!(d.is_newer_than(&c) != c.is_newer_than(&d), "after a restart: holder breaks the tie");
}

#[test]
fn edge_switch_closes_the_gate_before_forwarding() {
    let (mut pc, _) = Machine::new(Node::Pc, true, true);
    let out = pc.handle(Event::EdgePushed(Entry { height: 100 }));
    assert!(out.contains(&Action::CloseGate(1)));
    assert_eq!(pc.route_motion(), Route::Drop, "closing: own input dropped");
    pc.handle(Event::GateClosed(1));
    assert!(!pc.forwarding(), "not before the settle time");
    pc.handle(Event::SettleDone);
    assert!(pc.forwarding());
}

#[test]
fn a_release_follows_its_press() {
    let (mut pc, _) = Machine::new(Node::Pc, true, true);
    assert_eq!(pc.route_press(7), Route::Pass);
    pc.handle(Event::Hotkey);
    pc.handle(Event::GateClosed(1));
    pc.handle(Event::SettleDone);
    assert_eq!(pc.route_held(7), Route::Pass, "repeats follow the press too");
    assert_eq!(pc.route_release(7), Route::Pass, "pressed here, released here");
    assert_eq!(pc.route_press(8), Route::Forward);
    assert_eq!(pc.route_held(8), Route::Forward);
}

#[test]
fn a_new_machine_starts_split_and_tells_the_other_side() {
    let (m, out) = Machine::new(Node::Mac, true, false);
    assert_eq!(m.mode(), Mode::Split);
    assert_eq!(m.view(), view(0, Node::Mac, Holder::Split));
    assert_eq!(out, vec![Action::OpenGate, Action::SendView(view(0, Node::Mac, Holder::Split), None)]);
    let (_, out) = Machine::new(Node::Mac, false, false);
    assert!(out.is_empty(), "nothing to tell without a board");
}

#[test]
fn edge_switch_sends_the_view_then_freezes_and_closes() {
    let (mut pc, _) = Machine::new(Node::Pc, true, true);
    let out = pc.handle(Event::EdgePushed(Entry { height: 40_000 }));
    assert_eq!(
        out,
        vec![
            Action::SendView(view(1, Node::Pc, Holder::At(Node::Mac)), Some(Entry { height: 40_000 })),
            Action::Pointer(Pointer::Freeze),
            Action::CloseGate(1),
        ]
    );
    assert_eq!(pc.mode(), Mode::Closing { confirmed: false });
}

#[test]
fn hotkey_brings_the_focus_back_and_stops_forwarding_first() {
    let (mut pc, _) = Machine::new(Node::Pc, true, true);
    pc.handle(Event::Hotkey);
    pc.handle(Event::GateClosed(1));
    pc.handle(Event::SettleDone);
    assert_eq!(pc.mode(), Mode::Unfocused);
    let out = pc.handle(Event::Hotkey);
    assert_eq!(
        out,
        vec![
            Action::SendView(view(2, Node::Pc, Holder::At(Node::Pc)), None),
            Action::Forwarding(false),
            Action::OpenGate,
            Action::Pointer(Pointer::Resume),
        ]
    );
    assert_eq!(pc.mode(), Mode::Focused);
}

#[test]
fn link_loss_gives_split_mode() {
    let (mut mac, _) = Machine::new(Node::Mac, true, true);
    mac.handle(Event::Hotkey);
    let out = mac.handle(Event::LinkDown);
    assert_eq!(mac.mode(), Mode::Split);
    assert_eq!(mac.view(), view(2, Node::Mac, Holder::Split));
    assert_eq!(out[0], Action::SendView(view(2, Node::Mac, Holder::Split), None));
    assert!(out.contains(&Action::OpenGate));
}

#[test]
fn a_switch_the_other_side_cannot_take_is_ignored() {
    let (mut pc, _) = Machine::new(Node::Pc, true, false);
    assert!(pc.handle(Event::Hotkey).is_empty());
    assert!(pc.handle(Event::EdgePushed(Entry { height: 1 })).is_empty());
    assert_eq!(pc.mode(), Mode::Split);
}

#[test]
fn a_late_gate_answer_is_ignored() {
    let (mut pc, _) = Machine::new(Node::Pc, true, true);
    pc.handle(Event::Hotkey);
    assert!(pc.handle(Event::GateClosed(0)).is_empty());
    assert_eq!(pc.mode(), Mode::Closing { confirmed: false });
    assert_eq!(pc.handle(Event::GateClosed(1)), vec![Action::StartSettle]);
}

#[test]
fn a_newer_view_is_adopted_with_its_entry() {
    let (mut mac, _) = Machine::new(Node::Mac, true, true);
    let v = view(5, Node::Pc, Holder::At(Node::Mac));
    let out = mac.handle(Event::ViewReceived(v, Some(Entry { height: 9 })));
    assert_eq!(mac.view(), v);
    assert_eq!(mac.mode(), Mode::Focused);
    assert_eq!(out, vec![Action::Pointer(Pointer::Enter(Entry { height: 9 }))]);
    assert!(mac.peer_heard());
    // An older one changes nothing but what was seen.
    assert!(mac.handle(Event::ViewReceived(view(4, Node::Pc, Holder::Split), None)).is_empty());
    assert_eq!(mac.view(), v);
    // The next own decision is newer than anything seen.
    mac.handle(Event::Hotkey);
    assert_eq!(mac.view().epoch, 6);
}

#[test]
fn a_silent_peer_splits_only_once_heard() {
    let (mut pc, _) = Machine::new(Node::Pc, true, true);
    pc.handle(Event::Hotkey);
    assert!(pc.handle(Event::PeerSilent).is_empty(), "never heard: nothing to lose");
    pc.handle(Event::ViewReceived(view(0, Node::Mac, Holder::Split), None));
    pc.handle(Event::PeerSilent);
    assert_eq!(pc.mode(), Mode::Split);
    assert!(!pc.peer_heard());
}

#[test]
fn forwarded_keys_are_listed_in_order() {
    let (mut pc, _) = Machine::new(Node::Pc, true, true);
    pc.route_press(3);
    pc.handle(Event::Hotkey);
    pc.handle(Event::GateClosed(1));
    pc.handle(Event::SettleDone);
    pc.route_press(9);
    pc.route_press(0x101);
    pc.route_press(5);
    assert_eq!(pc.forwarded_held(), vec![5, 9, 0x101]);
    let out = pc.handle(Event::KeepaliveDue);
    assert_eq!(out[1], Action::SendKeyState);
}

#[test]
fn handle_refuses_only_an_exhausted_epoch_counter() {
    let (mut pc, _) = Machine::new(Node::Pc, true, true);
    pc.handle(Event::ViewReceived(view(u32::MAX, Node::Mac, Holder::Split), None));
    assert!(!pc.can_handle(Event::Hotkey));
    assert!(pc.can_handle(Event::KeepaliveDue));
    assert!(pc.can_handle(Event::LinkDown), "already split: no new view");
}

#[test]
fn own_input_is_kept_only_while_the_focus_is_away() {
    let (mut mac, _) = Machine::new(Node::Mac, true, true);
    assert_eq!(mac.route_motion(), Route::Pass, "split mode");
    mac.handle(Event::ViewReceived(view(1, Node::Pc, Holder::At(Node::Mac)), None));
    assert_eq!(mac.view().holder, Holder::At(Node::Mac));
    assert_eq!(mac.route_motion(), Route::Pass, "focused here");
    mac.handle(Event::ViewReceived(view(2, Node::Pc, Holder::At(Node::Pc)), None));
    assert_eq!(mac.route_motion(), Route::Drop, "focus on the PC: closing the board's gate");
    mac.handle(Event::GateClosed(1));
    mac.handle(Event::SettleDone);
    assert_eq!(mac.route_motion(), Route::Forward);
    mac.handle(Event::LinkDown);
    assert_eq!(mac.view().holder, Holder::Split);
    assert_eq!(mac.route_motion(), Route::Pass, "split again: the Mac's own");
}

#[test]
fn the_other_daemon_counts_as_heard_after_its_latest_view() {
    let (mut pc, _) = Machine::new(Node::Pc, true, true);
    assert!(!pc.peer_heard(), "not yet at the start");
    pc.handle(Event::ViewReceived(view(0, Node::Mac, Holder::Split), None));
    assert!(pc.peer_heard());
    pc.handle(Event::KeepaliveDue);
    assert!(pc.peer_heard(), "other events change nothing");
    pc.handle(Event::PeerSilent);
    assert!(!pc.peer_heard());
    pc.handle(Event::ViewReceived(view(0, Node::Mac, Holder::Split), None));
    assert!(pc.peer_heard());
}

#[test]
fn a_release_follows_its_press_among_other_keys() {
    let (mut pc, _) = Machine::new(Node::Pc, true, true);
    pc.handle(Event::Hotkey);
    pc.handle(Event::GateClosed(1));
    pc.handle(Event::SettleDone);
    assert_eq!(pc.route_press(7), Route::Forward);
    // Other keys come and go, and the focus comes back.
    assert_eq!(pc.route_press(8), Route::Forward);
    pc.handle(Event::Hotkey);
    assert_eq!(pc.route_press(9), Route::Pass);
    assert_eq!(pc.route_release(8), Route::Forward);
    assert_eq!(pc.route_held(7), Route::Forward);
    assert_eq!(pc.route_release(7), Route::Forward);
    assert!(!pc.forwarded_held().contains(&7));
    assert_eq!(pc.route_release(7), Route::Pass, "a second release goes here");
}
