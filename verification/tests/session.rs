use omni_kvm::daemon::session::{Due, Notes, Notice, Session};
use omni_kvm::focus::{Event, Holder, Mode, Node, View};
use omni_kvm::hub::{Hub, Out};
use omni_kvm::protocol::{self, msg, CMD_GATE_CLOSE, CMD_GATE_OPEN, STATUS_GATE_CLOSED, STATUS_LINK_CHANGED};

fn status(sub: u8, value: u8) -> [u8; 64] {
    protocol::packet(msg::DAEMON_STATUS, 0, &[sub, value])
}

fn view_packet(view: View) -> [u8; 64] {
    protocol::packet(msg::VIEW, 0, &protocol::encode_view(view, None))
}

#[test]
fn a_new_session_is_due_for_keepalive_and_stats() {
    let mut hub = Hub::new(Node::Pc);
    let g = hub.lock();
    let mut s = Session::start(g, 0);
    assert!(s.can_tick(g, 0));
    let due = s.tick(g, 0);
    assert_eq!(due, Due { peer_stopped: false, gate_lost: false, request_stats: true, board_silent: false });
    // Nothing more until the intervals pass.
    let due = s.tick(g, 500);
    assert_eq!(due, Due { peer_stopped: false, gate_lost: false, request_stats: false, board_silent: false });
    let out = hub.take_queue();
    // BoardBack opens the board's gate and sends the view; the keepalive sends it again.
    assert_eq!(out.iter().filter(|o| matches!(o, Out::View(..))).count(), 2);
    assert!(out.contains(&Out::OpenGate));
}

#[test]
fn link_reports_reach_the_machine() {
    let mut hub = Hub::new(Node::Pc);
    let g = hub.lock();
    let mut s = Session::start(g, 0);
    let p = status(STATUS_LINK_CHANGED, 1);
    assert!(s.can_take(g, &p));
    let notices = s.on_packet(g, 10, &p);
    assert!(matches!(notices.as_slice(), [Notice::Link(true)]));
    // The machine can now reach the other computer.
    g.handle(Event::Hotkey);
    assert_eq!(g.mode(), Mode::Closing { confirmed: false });
    let notices = s.on_packet(g, 20, &status(STATUS_GATE_CLOSED, 1));
    assert!(notices.is_empty());
    assert_eq!(g.mode(), Mode::Closing { confirmed: true });
}

#[test]
fn the_other_daemon_is_heard_and_missed() {
    let mut hub = Hub::new(Node::Pc);
    let g = hub.lock();
    let mut s = Session::start(g, 0);
    let mac_view = View { epoch: 1, decider: Node::Mac, holder: Holder::Split };
    let notices = s.on_packet(g, 100, &view_packet(mac_view));
    assert!(matches!(notices.as_slice(), [Notice::PeerRunning]));
    let notices = s.on_packet(g, 200, &view_packet(mac_view));
    assert!(notices.is_empty());
    // Heard last at 200: silent from 3200 on.
    assert!(!s.tick(g, 3199).peer_stopped);
    assert!(s.tick(g, 3200).peer_stopped);
    assert!(!s.tick(g, 9000).peer_stopped);
}

#[test]
fn a_silent_board_is_given_up() {
    let mut hub = Hub::new(Node::Pc);
    let g = hub.lock();
    let mut s = Session::start(g, 0);
    s.on_packet(g, 1000, &status(STATUS_LINK_CHANGED, 0));
    assert!(!s.tick(g, 5999).board_silent);
    assert!(s.tick(g, 6000).board_silent);
}

#[test]
fn an_unconfirmed_gate_close_loses_the_board() {
    let mut hub = Hub::new(Node::Pc);
    let g = hub.lock();
    let mut s = Session::start(g, 0);
    s.on_packet(g, 0, &status(STATUS_LINK_CHANGED, 1));
    g.handle(Event::Hotkey);
    let sent = s.carry_out(Out::CloseGate(1), 1000);
    assert_eq!(sent, Some((msg::DAEMON_CMD, vec![CMD_GATE_CLOSE, 1])));
    assert!(!s.tick(g, 1099).gate_lost);
    let due = s.tick(g, 1100);
    assert!(due.gate_lost && !due.request_stats && !due.board_silent);
    assert_eq!(g.mode(), Mode::Split);
}

#[test]
fn work_for_the_board_becomes_messages() {
    let mut hub = Hub::new(Node::Pc);
    let g = hub.lock();
    let mut s = Session::start(g, 0);
    let view = View { epoch: 3, decider: Node::Pc, holder: Holder::Split };
    assert_eq!(
        s.carry_out(Out::View(view, None), 0),
        Some((msg::VIEW, protocol::encode_view(view, None).to_vec()))
    );
    assert_eq!(s.carry_out(Out::OpenGate, 0), Some((msg::DAEMON_CMD, vec![CMD_GATE_OPEN])));
    assert_eq!(
        s.carry_out(Out::Input(msg::KEY_DOWN, [4, 0, 0, 0, 0]), 0),
        Some((msg::KEY_DOWN, vec![4, 0, 0, 0, 0]))
    );
    assert_eq!(s.carry_out(Out::Ignored, 0), None);
}

#[test]
fn forwarding_starts_when_the_settle_time_ran_out() {
    let mut hub = Hub::new(Node::Pc);
    let g = hub.lock();
    let mut s = Session::start(g, 0);
    s.on_packet(g, 0, &status(STATUS_LINK_CHANGED, 1));
    g.handle(Event::Hotkey);
    s.on_packet(g, 50, &status(STATUS_GATE_CLOSED, 1));
    assert_eq!(s.carry_out(Out::StartSettle, 100), None);
    s.tick(g, 119);
    assert_eq!(g.mode(), Mode::Closing { confirmed: true });
    s.tick(g, 120);
    assert_eq!(g.mode(), Mode::Unfocused);
}

#[test]
fn repeated_log_lines_are_kept_back() {
    let mut notes = Notes::new();
    assert!(notes.ignored(0));
    assert!(!notes.ignored(4999));
    assert!(notes.ignored(5000));
    assert!(notes.looking("No board".to_string()));
    assert!(!notes.looking("No board".to_string()));
    assert!(notes.looking("Several boards".to_string()));
    notes.connected();
    assert!(notes.looking("Several boards".to_string()));
}
