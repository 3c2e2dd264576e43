//! The board side of the daemon while it talks to a board: the timers,
//! what the board reports, and the work carried out for the machine.
//!
//! The program does the talking and keeps the time. Each pass of its loop
//! it hands [`Session::tick`] the time (milliseconds on a clock that only
//! moves forward), each packet from the board to [`Session::on_packet`],
//! and each work item from the hub's queue to [`Session::carry_out`]; it
//! does what comes back: ask the board for its link statistics, write a
//! packet, log, or give the board up.

use vstd::prelude::*;
use vstd::view::View as _;

use crate::focus::{Entry, Event, FocusState, Mode, View};
use crate::hub::{lemma_none_handled, lemma_one_more_handled, Guard, Out};
use crate::protocol::{self, msg, LinkStats, ParseError, Status, PACKET_SIZE};

verus! {

/// A view goes to the other daemon at least this often (keepalive).
pub const KEEPALIVE_MS: u64 = 1000;
/// No view from the other daemon for this long: it has stopped (S8).
pub const PEER_SILENT_MS: u64 = 3000;
/// Once the board confirms its gate closed, input it typed in just before
/// may still be on its way through the operating system to our capture.
/// Forwarding starts only after this (R2).
pub const SETTLE_MS: u64 = 20;
/// The board must confirm a gate close within this, or it counts as lost.
pub const GATE_TIMEOUT_MS: u64 = 100;
/// Link statistics are asked for this often: for the log, and to notice a
/// board that stopped answering.
pub const STATS_INTERVAL_MS: u64 = 2000;
pub const STATS_LOG_INTERVAL_MS: u64 = 10000;
/// No status from the board for this long: it is gone (unplugged, reset,
/// stuck).
pub const BOARD_TIMEOUT_MS: u64 = 5000;
/// The latest time the board side's clock may show: each interval above
/// can still be added to it.
pub const CLOCK_END: u64 = 0xFFFF_FFFF_FFFF_0000;

/// What the timers ask of the program after [`Session::tick`].
#[derive(Clone, Copy, Debug, PartialEq, Eq, Structural)]
pub struct Due {
    /// Log that the other daemon stopped answering.
    pub peer_stopped: bool,
    /// The board did not confirm closing its input gate: give it up.
    pub gate_lost: bool,
    /// Ask the board for its link statistics.
    pub request_stats: bool,
    /// No status from the board for too long: give it up.
    pub board_silent: bool,
}

/// What a packet from the board gives the log.
#[derive(Clone, Copy, Debug)]
pub enum Notice {
    /// The radio link is up (true) or down.
    Link(bool),
    /// Link statistics to print.
    Stats(LinkStats),
    /// A status packet that makes no sense.
    BoardError(ParseError),
    /// The other computer's daemon is running (again).
    PeerRunning,
}

/// The session's state, as values.
pub struct SessionState {
    /// When the next keepalive is due.
    pub keepalive: u64,
    /// When the other daemon was last heard, while it counts as running.
    pub heard: Option<u64>,
    pub settle: Option<u64>,
    pub gate: Option<u64>,
    /// When the next link statistics are due.
    pub stats: u64,
    pub last_status: u64,
    /// When link statistics were last printed, and whether the link was up.
    pub stats_logged: Option<(u64, bool)>,
    /// The other daemon is running, as far as the log has said.
    pub peer_running: bool,
    /// The board has told us the link state since we connected.
    pub link_known: bool,
}

/// The machine's event for a link reported up or down.
pub open spec fn link_event(up: bool) -> Event {
    if up {
        Event::LinkUp
    } else {
        Event::LinkDown
    }
}

impl SessionState {
    /// The times kept are ones the clock showed: intervals can be added
    /// to them.
    pub open spec fn wf(self) -> bool {
        &&& (self.heard matches Some(t) ==> t <= CLOCK_END)
        &&& self.last_status <= CLOCK_END
        &&& (self.stats_logged matches Some(l) ==> l.0 <= CLOCK_END)
    }

    pub open spec fn keepalive_due(self, now: u64) -> bool {
        now >= self.keepalive
    }

    pub open spec fn peer_due(self, now: u64) -> bool {
        self.heard matches Some(t) && now >= t + PEER_SILENT_MS
    }

    pub open spec fn settle_due(self, now: u64) -> bool {
        self.settle matches Some(t) && now >= t
    }

    pub open spec fn gate_due(self, now: u64) -> bool {
        self.gate matches Some(t) && now >= t
    }

    /// The events the timers hand the machine, in order, up to the
    /// keepalive, the silence of the other daemon, and the settle time.
    pub open spec fn keepalive_events(self, now: u64) -> Seq<Event> {
        if self.keepalive_due(now) {
            seq![Event::KeepaliveDue]
        } else {
            seq![]
        }
    }

    pub open spec fn peer_events(self, now: u64) -> Seq<Event> {
        let e = self.keepalive_events(now);
        if self.peer_due(now) {
            e.push(Event::PeerSilent)
        } else {
            e
        }
    }

    pub open spec fn timer_events(self, now: u64) -> Seq<Event> {
        let e = self.peer_events(now);
        if self.settle_due(now) {
            e.push(Event::SettleDone)
        } else {
            e
        }
    }

    /// The board did not confirm closing its input gate in time: that
    /// timer ran out while the machine, after the timers' other events,
    /// still waits for the confirmation.
    pub open spec fn gate_times_out(self, m: FocusState, now: u64) -> bool {
        self.gate_due(now) && m.run(self.timer_events(now)).mode == (Mode::Closing {
            confirmed: false,
        })
    }

    /// All the events a tick hands the machine, in order.
    pub open spec fn tick_events(self, m: FocusState, now: u64) -> Seq<Event> {
        let e = self.timer_events(now);
        if self.gate_times_out(m, now) {
            e.push(Event::GateTimeout)
        } else {
            e
        }
    }

    /// The machine can take the events a tick hands it, each in the state
    /// it finds the machine in. (The keepalive and the settle time never
    /// make a new view.)
    pub open spec fn tick_accepted(self, m: FocusState, now: u64) -> bool {
        &&& self.peer_due(now) ==> m.run(self.keepalive_events(now)).accepts(Event::PeerSilent)
        &&& self.gate_times_out(m, now) ==> m.run(self.timer_events(now)).accepts(
            Event::GateTimeout,
        )
    }

    /// What the timers ask for at `now`.
    pub open spec fn due(self, m: FocusState, now: u64) -> Due {
        let lost = self.gate_times_out(m, now);
        Due {
            peer_stopped: self.peer_due(now) && self.peer_running,
            gate_lost: lost,
            request_stats: !lost && now >= self.stats,
            board_silent: !lost && now >= self.last_status + BOARD_TIMEOUT_MS,
        }
    }

    /// The session after a tick at `now`: what ran out is cleared or
    /// started again. A session that loses its board stops there.
    pub open spec fn ticked(self, m: FocusState, now: u64) -> SessionState {
        let lost = self.gate_times_out(m, now);
        SessionState {
            keepalive: if self.keepalive_due(now) {
                (now + KEEPALIVE_MS) as u64
            } else {
                self.keepalive
            },
            heard: if self.peer_due(now) {
                None
            } else {
                self.heard
            },
            peer_running: self.peer_running && !self.peer_due(now),
            settle: if self.settle_due(now) {
                None
            } else {
                self.settle
            },
            gate: if self.gate_due(now) {
                None
            } else {
                self.gate
            },
            stats: if !lost && now >= self.stats {
                (now + STATS_INTERVAL_MS) as u64
            } else {
                self.stats
            },
            ..self
        }
    }

    /// Whether link statistics reported at `now` are printed: the first
    /// ones, when the link changed since, or once the log interval passed.
    pub open spec fn stats_print_due(self, now: u64, up: bool) -> bool {
        match self.stats_logged {
            None => true,
            Some(l) => l.1 != up || now >= l.0 + STATS_LOG_INTERVAL_MS,
        }
    }

    /// What a packet from the board does at `now`: the session after it,
    /// the event it hands the machine if any, and what it gives the log.
    pub open spec fn packet_effect(self, now: u64, p: Seq<u8>) -> (
        SessionState,
        Option<Event>,
        Seq<Notice>,
    ) {
        if p[2] == msg::DAEMON_STATUS {
            let s = SessionState { last_status: now, ..self };
            match protocol::status_in(p) {
                Ok(Status::LinkChanged(up)) => (
                    SessionState { link_known: true, ..s },
                    Some(link_event(up)),
                    seq![Notice::Link(up)],
                ),
                Ok(Status::GateClosed(n)) => (s, Some(Event::GateClosed(n)), seq![]),
                Ok(Status::LinkStats(st)) => {
                    // The board reports the link the moment we connect, but
                    // that report can be lost: opening the port discards
                    // what arrived first. The answer to our first request,
                    // sent after that, says it instead.
                    let (s2, e, first): (SessionState, Option<Event>, Seq<Notice>) = if !self.link_known {
                        (
                            SessionState { link_known: true, ..s },
                            Some(link_event(st.link_up)),
                            seq![Notice::Link(st.link_up)],
                        )
                    } else {
                        (s, None, seq![])
                    };
                    if self.stats_print_due(now, st.link_up) {
                        (
                            SessionState { stats_logged: Some((now, st.link_up)), ..s2 },
                            e,
                            first.push(Notice::Stats(st)),
                        )
                    } else {
                        (s2, e, first)
                    }
                },
                Ok(Status::Other(_)) => (s, None, seq![]),
                Err(err) => (s, None, seq![Notice::BoardError(err)]),
            }
        } else if p[2] == msg::VIEW {
            match protocol::view_in(p) {
                Some((view, entry)) => (
                    SessionState { peer_running: true, heard: Some(now), ..self },
                    Some(Event::ViewReceived(view, entry)),
                    if self.peer_running {
                        seq![]
                    } else {
                        seq![Notice::PeerRunning]
                    },
                ),
                None => (self, None, seq![]),
            }
        } else {
            (self, None, seq![])
        }
    }

    /// What carrying out `out` at `now` does: the session after it, and
    /// the message for the board (type and payload) if any.
    pub open spec fn work_effect(self, out: Out, now: u64) -> (SessionState, Option<(u8, Seq<u8>)>) {
        match out {
            Out::Input(t, payload) => (self, Some((t, payload@))),
            Out::View(view, entry) => (self, Some((msg::VIEW, protocol::view_payload(view, entry)))),
            Out::CloseGate(n) => (
                SessionState { gate: Some((now + GATE_TIMEOUT_MS) as u64), ..self },
                Some((msg::DAEMON_CMD, seq![protocol::CMD_GATE_CLOSE, n])),
            ),
            Out::OpenGate => (self, Some((msg::DAEMON_CMD, seq![protocol::CMD_GATE_OPEN]))),
            Out::KeyState(state) => (self, Some((msg::KEY_STATE, state@))),
            Out::StartSettle => (SessionState { settle: Some((now + SETTLE_MS) as u64), ..self }, None),
            _ => (self, None),
        }
    }
}

/// `after` is `g0` once `event`, if any, was handled.
pub open spec fn handled_maybe(g0: Guard, event: Option<Event>, after: Guard) -> bool {
    match event {
        Some(e) => g0.handled_into(e, after),
        None => after.state() == g0.state() && after.queued() == g0.queued(),
    }
}

/// A connection to a board: its timers, and what the board and the other
/// daemon have said.
pub struct Session {
    keepalive: u64,
    heard: Option<u64>,
    settle: Option<u64>,
    gate: Option<u64>,
    stats: u64,
    last_status: u64,
    stats_logged: Option<(u64, bool)>,
    peer_running: bool,
    link_known: bool,
}

/// The machine after the timers' events: the keepalive changes nothing,
/// then the silence of the other daemon, then the settle time.
proof fn lemma_timer_runs(s: SessionState, m: FocusState, now: u64)
    ensures
        m.run(s.keepalive_events(now)) == m,
        m.run(s.peer_events(now)) == (if s.peer_due(now) {
            m.next(Event::PeerSilent).0
        } else {
            m
        }),
        m.run(s.timer_events(now)) == (if s.settle_due(now) {
            m.run(s.peer_events(now)).next(Event::SettleDone).0
        } else {
            m.run(s.peer_events(now))
        }),
{
    reveal_with_fuel(FocusState::run, 2);
    let k = s.keepalive_events(now);
    if s.keepalive_due(now) {
        assert(k.drop_last() =~= Seq::<Event>::empty());
    }
    let p = s.peer_events(now);
    if s.peer_due(now) {
        assert(p.drop_last() =~= k);
    }
    let t = s.timer_events(now);
    if s.settle_due(now) {
        assert(t.drop_last() =~= p);
    }
}

impl Session {
    /// The session's state, as values.
    pub closed spec fn state(self) -> SessionState {
        SessionState {
            keepalive: self.keepalive,
            heard: self.heard,
            settle: self.settle,
            gate: self.gate,
            stats: self.stats,
            last_status: self.last_status,
            stats_logged: self.stats_logged,
            peer_running: self.peer_running,
            link_known: self.link_known,
        }
    }

    /// A session with a board just opened at `now`: the machine hears the
    /// board is back; the keepalive and the link statistics are due at
    /// once; silence of the other daemon and of the board counts from now
    /// (a daemon that was running before must answer again, S8).
    pub fn start(g: &mut Guard, now: u64) -> (r: Session)
        requires
            now <= CLOCK_END,
        ensures
            r.state() == (SessionState {
                keepalive: now,
                heard: Some(now),
                settle: None,
                gate: None,
                stats: now,
                last_status: now,
                stats_logged: None,
                peer_running: false,
                link_known: false,
            }),
            r.state().wf(),
            old(g).handled_into(Event::BoardBack, *final(g)),
    {
        g.handle(Event::BoardBack);
        Session {
            keepalive: now,
            heard: Some(now),
            settle: None,
            gate: None,
            stats: now,
            last_status: now,
            stats_logged: None,
            peer_running: false,
            link_known: false,
        }
    }

    /// Whether [`Session::tick`] can run at `now`: false only when a timer
    /// would have the machine make a new view and its epoch counter is at
    /// its limit.
    pub fn can_tick(&self, g: &Guard, now: u64) -> (r: bool)
        requires
            self.state().wf(),
            now <= CLOCK_END,
        ensures
            r == self.state().tick_accepted(g.state(), now),
    {
        let peer = match self.heard {
            Some(t) => now >= t + PEER_SILENT_MS,
            None => false,
        };
        let gate = match self.gate {
            Some(t) => now >= t,
            None => false,
        };
        let peer_ok = !peer || g.can_handle(Event::PeerSilent);
        let gate_ok = !(gate && g.mode() == (Mode::Closing { confirmed: false }))
            || g.can_handle(Event::GateTimeout);
        proof {
            lemma_timer_runs(self.state(), g.state(), now);
        }
        peer_ok && gate_ok
    }

    /// The timers at `now`: hands the machine what ran out (keepalive,
    /// silence of the other daemon, settle time, gate close not
    /// confirmed), and says what else is due.
    pub fn tick(&mut self, g: &mut Guard, now: u64) -> (due: Due)
        requires
            old(self).state().wf(),
            now <= CLOCK_END,
            old(self).state().tick_accepted(old(g).state(), now),
        ensures
            final(self).state().wf(),
            final(self).state() == old(self).state().ticked(old(g).state(), now),
            due == old(self).state().due(old(g).state(), now),
            old(g).handled_all(old(self).state().tick_events(old(g).state(), now), *final(g)),
    {
        let ghost s0 = self.state();
        let ghost g0 = *g;
        let ghost m = g.state();
        let ghost mut events: Seq<Event> = Seq::empty();
        proof {
            lemma_none_handled(g0);
        }
        if now >= self.keepalive {
            self.keepalive = now + KEEPALIVE_MS;
            let ghost gb = *g;
            g.handle(Event::KeepaliveDue);
            proof {
                lemma_one_more_handled(g0, events, gb, Event::KeepaliveDue, *g);
                events = events.push(Event::KeepaliveDue);
            }
        }
        assert(events =~= s0.keepalive_events(now));
        let mut peer_stopped = false;
        match self.heard {
            Some(heard) => {
                if now >= heard + PEER_SILENT_MS {
                    self.heard = None;
                    if self.peer_running {
                        self.peer_running = false;
                        peer_stopped = true;
                    }
                    let ghost gb = *g;
                    g.handle(Event::PeerSilent);
                    proof {
                        lemma_one_more_handled(g0, events, gb, Event::PeerSilent, *g);
                        events = events.push(Event::PeerSilent);
                    }
                }
            },
            None => {},
        }
        assert(events =~= s0.peer_events(now));
        match self.settle {
            Some(settle) => {
                if now >= settle {
                    self.settle = None;
                    let ghost gb = *g;
                    g.handle(Event::SettleDone);
                    proof {
                        lemma_one_more_handled(g0, events, gb, Event::SettleDone, *g);
                        events = events.push(Event::SettleDone);
                    }
                }
            },
            None => {},
        }
        assert(events =~= s0.timer_events(now));
        let mut gate_lost = false;
        match self.gate {
            Some(gate) => {
                if now >= gate {
                    self.gate = None;
                    if g.mode() == (Mode::Closing { confirmed: false }) {
                        let ghost gb = *g;
                        g.handle(Event::GateTimeout);
                        proof {
                            lemma_one_more_handled(g0, events, gb, Event::GateTimeout, *g);
                            events = events.push(Event::GateTimeout);
                        }
                        gate_lost = true;
                    }
                }
            },
            None => {},
        }
        assert(events =~= s0.tick_events(m, now));
        if gate_lost {
            return Due { peer_stopped, gate_lost: true, request_stats: false, board_silent: false };
        }
        let mut request_stats = false;
        if now >= self.stats {
            self.stats = now + STATS_INTERVAL_MS;
            request_stats = true;
        }
        let board_silent = now >= self.last_status + BOARD_TIMEOUT_MS;
        Due { peer_stopped, gate_lost: false, request_stats, board_silent }
    }

    /// The event a packet from the board would hand the machine, if any.
    pub fn packet_event(&self, packet: &[u8; PACKET_SIZE]) -> (r: Option<Event>)
        ensures
            r == self.state().packet_effect(0, packet@).1,
    {
        if packet[2] == msg::DAEMON_STATUS {
            match Status::parse(packet) {
                Ok(Status::LinkChanged(up)) => Some(if up {
                    Event::LinkUp
                } else {
                    Event::LinkDown
                }),
                Ok(Status::GateClosed(n)) => Some(Event::GateClosed(n)),
                Ok(Status::LinkStats(s)) => if !self.link_known {
                    Some(if s.link_up {
                        Event::LinkUp
                    } else {
                        Event::LinkDown
                    })
                } else {
                    None
                },
                _ => None,
            }
        } else if packet[2] == msg::VIEW {
            match protocol::decode_view(packet) {
                Some((view, entry)) => Some(Event::ViewReceived(view, entry)),
                None => None,
            }
        } else {
            None
        }
    }

    /// Whether [`Session::on_packet`] can take `packet`: false only when
    /// the link going down would have the machine make a new view and its
    /// epoch counter is at its limit.
    pub fn can_take(&self, g: &Guard, packet: &[u8; PACKET_SIZE]) -> (r: bool)
        ensures
            r == (match self.state().packet_effect(0, packet@).1 {
                Some(e) => g.state().accepts(e),
                None => true,
            }),
    {
        match self.packet_event(packet) {
            Some(e) => g.can_handle(e),
            None => true,
        }
    }

    /// A packet from the board at `now`: a status (link state, gate closed,
    /// link statistics) or a view from the other daemon. Returns what the
    /// log gets.
    pub fn on_packet(&mut self, g: &mut Guard, now: u64, packet: &[u8; PACKET_SIZE]) -> (notices:
        Vec<Notice>)
        requires
            old(self).state().wf(),
            now <= CLOCK_END,
            match old(self).state().packet_effect(now, packet@).1 {
                Some(e) => old(g).state().accepts(e),
                None => true,
            },
        ensures
            final(self).state().wf(),
            final(self).state() == old(self).state().packet_effect(now, packet@).0,
            notices@ == old(self).state().packet_effect(now, packet@).2,
            handled_maybe(*old(g), old(self).state().packet_effect(now, packet@).1, *final(g)),
    {
        let mut notices: Vec<Notice> = Vec::new();
        if packet[2] == msg::DAEMON_STATUS {
            self.last_status = now;
            match Status::parse(packet) {
                Ok(Status::LinkChanged(up)) => {
                    self.link_known = true;
                    notices.push(Notice::Link(up));
                    g.handle(
                        if up {
                            Event::LinkUp
                        } else {
                            Event::LinkDown
                        },
                    );
                },
                Ok(Status::GateClosed(n)) => g.handle(Event::GateClosed(n)),
                Ok(Status::LinkStats(s)) => {
                    if !self.link_known {
                        self.link_known = true;
                        notices.push(Notice::Link(s.link_up));
                        g.handle(
                            if s.link_up {
                                Event::LinkUp
                            } else {
                                Event::LinkDown
                            },
                        );
                    }
                    let print = match self.stats_logged {
                        None => true,
                        Some((at, up)) => up != s.link_up || now >= at + STATS_LOG_INTERVAL_MS,
                    };
                    if print {
                        self.stats_logged = Some((now, s.link_up));
                        notices.push(Notice::Stats(s));
                    }
                },
                Ok(Status::Other(_)) => {},
                Err(e) => notices.push(Notice::BoardError(e)),
            }
        } else if packet[2] == msg::VIEW {
            match protocol::decode_view(packet) {
                Some((view, entry)) => {
                    if !self.peer_running {
                        self.peer_running = true;
                        notices.push(Notice::PeerRunning);
                    }
                    self.heard = Some(now);
                    g.handle(Event::ViewReceived(view, entry));
                },
                None => {},
            }
        }
        proof {
            let eff = old(self).state().packet_effect(now, packet@);
            assert(notices@ =~= eff.2);
        }
        notices
    }

    /// Carries out one work item at `now` as far as the session goes:
    /// starts the timers for a closing gate and for the settle time, and
    /// returns the message for the board (type and payload), if the item is
    /// one. What needs no board (the pointer, the log) is the program's.
    pub fn carry_out(&mut self, out: Out, now: u64) -> (r: Option<(u8, Vec<u8>)>)
        requires
            old(self).state().wf(),
            now <= CLOCK_END,
        ensures
            final(self).state().wf(),
            final(self).state() == old(self).state().work_effect(out, now).0,
            match old(self).state().work_effect(out, now).1 {
                Some((t, p)) => r matches Some(m) && m.0 == t && m.1@ == p,
                None => r is None,
            },
    {
        match out {
            Out::Input(msg_type, payload) => Some((msg_type, vstd::slice::slice_to_vec(payload.as_slice()))),
            Out::View(view, entry) => Some((msg::VIEW, vstd::slice::slice_to_vec(protocol::encode_view(view, entry).as_slice()))),
            Out::CloseGate(n) => {
                self.gate = Some(now + GATE_TIMEOUT_MS);
                let mut p: Vec<u8> = Vec::new();
                p.push(protocol::CMD_GATE_CLOSE);
                p.push(n);
                assert(p@ =~= seq![protocol::CMD_GATE_CLOSE, n]);
                Some((msg::DAEMON_CMD, p))
            },
            Out::OpenGate => {
                let mut p: Vec<u8> = Vec::new();
                p.push(protocol::CMD_GATE_OPEN);
                assert(p@ =~= seq![protocol::CMD_GATE_OPEN]);
                Some((msg::DAEMON_CMD, p))
            },
            Out::KeyState(state) => Some((msg::KEY_STATE, vstd::slice::slice_to_vec(state.as_slice()))),
            Out::StartSettle => {
                self.settle = Some(now + SETTLE_MS);
                None
            },
            _ => None,
        }
    }
}

/// A switch that cannot happen is logged at most this often.
pub const IGNORED_LOG_INTERVAL_MS: u64 = 5000;

/// Log lines the board side keeps from repeating.
pub struct Notes {
    ignored: Option<u64>,
    looking: Option<String>,
}

impl Notes {
    /// When an ignored switch was last logged.
    pub closed spec fn last_ignored(self) -> Option<u64> {
        self.ignored
    }

    /// What the search for a board last said.
    pub closed spec fn last_looking(self) -> Option<Seq<char>> {
        match self.looking {
            Some(text) => Some(text@),
            None => None,
        }
    }

    /// The times kept are ones the clock showed.
    pub open spec fn wf(self) -> bool {
        self.last_ignored() matches Some(t) ==> t <= CLOCK_END
    }

    pub fn new() -> (n: Notes)
        ensures
            n.last_ignored() is None,
            n.last_looking() is None,
            n.wf(),
    {
        Notes { ignored: None, looking: None }
    }

    /// A switch was ignored at `now`, the other computer being out of
    /// reach: whether to log it (not again within the interval).
    pub fn ignored(&mut self, now: u64) -> (say: bool)
        requires
            old(self).wf(),
            now <= CLOCK_END,
        ensures
            final(self).wf(),
            say == (match old(self).last_ignored() {
                None => true,
                Some(t) => now >= t + IGNORED_LOG_INTERVAL_MS,
            }),
            final(self).last_ignored() == (if say {
                Some(now)
            } else {
                old(self).last_ignored()
            }),
            final(self).last_looking() == old(self).last_looking(),
    {
        let say = match self.ignored {
            None => true,
            Some(t) => now >= t + IGNORED_LOG_INTERVAL_MS,
        };
        if say {
            self.ignored = Some(now);
        }
        say
    }

    /// What the search for a board found: whether to log it (only when it
    /// changed).
    pub fn looking(&mut self, text: String) -> (say: bool)
        ensures
            say == (old(self).last_looking() != Some(text@)),
            final(self).last_looking() == Some(text@),
            final(self).last_ignored() == old(self).last_ignored(),
    {
        let say = match &self.looking {
            Some(last) => !(*last == text),
            None => true,
        };
        self.looking = Some(text);
        say
    }

    /// A board was found: the next search says what it finds, whatever
    /// it is.
    pub fn connected(&mut self)
        ensures
            final(self).last_looking() is None,
            final(self).last_ignored() == old(self).last_ignored(),
    {
        self.looking = None;
    }
}

// ── laws ────────────────────────────────────────────────────────────

/// S8: once the other daemon has been silent for [`PEER_SILENT_MS`], the
/// next tick tells the machine so, and it does not again until the other
/// daemon is heard from.
pub proof fn law_a_silent_daemon_is_noticed_once(s: SessionState, m: FocusState, now: u64, later: u64)
    requires
        s.heard matches Some(t) && now >= t + PEER_SILENT_MS,
    ensures
        s.tick_events(m, now).contains(Event::PeerSilent),
        !s.ticked(m, now).peer_due(later),
{
    let p = s.peer_events(now);
    assert(p.last() == Event::PeerSilent);
    let t = s.timer_events(now);
    let e = s.tick_events(m, now);
    if s.settle_due(now) {
        assert(t[t.len() - 2] == Event::PeerSilent);
        if s.gate_times_out(m, now) {
            assert(e[e.len() - 3] == Event::PeerSilent);
        } else {
            assert(e[e.len() - 2] == Event::PeerSilent);
        }
    } else if s.gate_times_out(m, now) {
        assert(e[e.len() - 2] == Event::PeerSilent);
    } else {
        assert(e[e.len() - 1] == Event::PeerSilent);
    }
}

/// A view from the other daemon is hearing from it: the machine gets the
/// view, and the silence of the other daemon counts from that packet on.
pub proof fn law_a_view_is_hearing_from_the_other_daemon(s: SessionState, now: u64, p: Seq<u8>)
    requires
        p.len() == PACKET_SIZE,
        protocol::view_in(p) is Some,
    ensures
        s.packet_effect(now, p).0.heard == Some(now),
        s.packet_effect(now, p).1 == Some(
            Event::ViewReceived(protocol::view_in(p).unwrap().0, protocol::view_in(p).unwrap().1),
        ),
{
}

/// The machine learns the link state whenever the log does: a packet
/// from the board says "link up" (or down) to the log exactly when it hands
/// the machine `LinkUp` (or `LinkDown`). Link statistics tell it once, as
/// the first report of the link on a new connection; a link change always.
pub proof fn law_the_machine_hears_of_the_link_as_the_log_does(
    s: SessionState,
    now: u64,
    p: Seq<u8>,
    up: bool,
)
    requires
        p.len() == PACKET_SIZE,
    ensures
        s.packet_effect(now, p).2.contains(Notice::Link(up)) <==> s.packet_effect(now, p).1
            == Some(if up {
            Event::LinkUp
        } else {
            Event::LinkDown
        }),
        protocol::status_in(p) matches Ok(Status::LinkStats(st)) ==> (!s.link_known ==> (
        s.packet_effect(now, p).1 == Some(if st.link_up {
            Event::LinkUp
        } else {
            Event::LinkDown
        }) && s.packet_effect(now, p).0.link_known)),
        protocol::status_in(p) matches Ok(Status::LinkChanged(u)) ==> s.packet_effect(now, p).1
            == Some(if u {
            Event::LinkUp
        } else {
            Event::LinkDown
        }),
{
    let eff = s.packet_effect(now, p);
    if p[2] == msg::DAEMON_STATUS {
        match protocol::status_in(p) {
            Ok(Status::LinkStats(st)) => {
                if !s.link_known {
                    assert(eff.2[0] == Notice::Link(st.link_up));
                    if eff.2.contains(Notice::Link(up)) {
                        let i = choose|i: int| 0 <= i < eff.2.len() && eff.2[i] == Notice::Link(up);
                        assert(i == 0);
                    }
                } else {
                    if s.stats_print_due(now, st.link_up) {
                        assert(eff.2 =~= seq![Notice::Stats(st)]);
                    }
                }
            },
            Ok(Status::LinkChanged(u)) => {
                assert(eff.2 =~= seq![Notice::Link(u)]);
                assert(eff.2[0] == Notice::Link(u));
            },
            Err(e) => {
                assert(eff.2 =~= seq![Notice::BoardError(e)]);
            },
            _ => {},
        }
    } else if p[2] == msg::VIEW {
        if !s.peer_running && protocol::view_in(p) is Some {
            assert(eff.2 =~= seq![Notice::PeerRunning]);
        }
    }
}

/// What the board is sent for each work item (protocol: MSG_DAEMON_CMD
/// 0x40 with command 0x08 to open its input gate, 0x09 and the request
/// number to close it; MSG_VIEW 0x10; input and key state under their own
/// types), and which timers start: the timer for a closing gate, and the
/// settle timer on `StartSettle`.
pub proof fn law_work_becomes_its_message(
    s: SessionState,
    now: u64,
    n: u8,
    t: u8,
    payload: [u8; 5],
    state: [u8; 8],
    view: View,
    entry: Option<Entry>,
)
    requires
        now <= CLOCK_END,
    ensures
        s.work_effect(Out::CloseGate(n), now) == (
            SessionState { gate: Some((now + 100) as u64), ..s },
            Some((0x40u8, seq![0x09u8, n])),
        ),
        s.work_effect(Out::OpenGate, now) == (s, Some((0x40u8, seq![0x08u8]))),
        s.work_effect(Out::View(view, entry), now) == (
            s,
            Some((0x10u8, protocol::view_payload(view, entry))),
        ),
        s.work_effect(Out::Input(t, payload), now) == (s, Some((t, payload@))),
        s.work_effect(Out::KeyState(state), now) == (s, Some((0x07u8, state@))),
        s.work_effect(Out::StartSettle, now) == (
            SessionState { settle: Some((now + 20) as u64), ..s },
            None::<(u8, Seq<u8>)>,
        ),
{
}

} // verus!
