//! The focus state machine: where keyboard and mouse input goes, and what
//! this daemon has to do about it.
//!
//! Pure logic: no operating system, no board, no clock. The daemon feeds
//! it events (a push past the screen edge, the hotkey, a view from the
//! other daemon, the link going down, ...) and carries out the actions it
//! returns (send a view, close the board's input gate, start forwarding,
//! ...).
//!
//! Every operation is specified by a transition over the machine's fields
//! (`next`, `pressed_into`, `released_from`); the laws of the design
//! (`laws.rs`) are proved over those transitions.

use std::collections::BTreeMap;
use vstd::prelude::*;
use vstd::view::View as _;
use vstd::std_specs::iter::IteratorSpec;

pub mod laws;
mod sorted;

verus! {

/// The two computers. The PC ranks higher: when two views are otherwise
/// equal, the PC's decision wins.
#[derive(Clone, Copy, Debug, PartialEq, Eq, Structural, Hash, PartialOrd, Ord)]
pub enum Node {
    Mac,
    Pc,
}

impl Node {
    /// The other computer, as a value.
    pub open spec fn opposite(self) -> Node {
        match self {
            Node::Mac => Node::Pc,
            Node::Pc => Node::Mac,
        }
    }

    /// Position in the order of nodes: the Mac below the PC.
    pub open spec fn rank(self) -> int {
        match self {
            Node::Mac => 0,
            Node::Pc => 1,
        }
    }

    pub fn other(self) -> (r: Node)
        ensures
            r == self.opposite(),
    {
        match self {
            Node::Mac => Node::Pc,
            Node::Pc => Node::Mac,
        }
    }
}

/// Where the focus is: on one computer, or nowhere (split mode).
#[derive(Clone, Copy, Debug, PartialEq, Eq, Structural, Hash)]
pub enum Holder {
    Split,
    At(Node),
}

impl Holder {
    /// Last tie-breaker between views, as a value.
    pub open spec fn order_rank(self) -> int {
        match self {
            Holder::Split => 0,
            Holder::At(Node::Mac) => 1,
            Holder::At(Node::Pc) => 2,
        }
    }

    /// Last tie-breaker between views (see [`View`]).
    fn rank(self) -> (r: u8)
        ensures
            r == self.order_rank(),
    {
        match self {
            Holder::Split => 0,
            Holder::At(Node::Mac) => 1,
            Holder::At(Node::Pc) => 2,
        }
    }
}

/// A node's view of the focus. The newer of two views wins: higher
/// epoch, then the PC's decision, then the holder (equal epoch and
/// decider with different holders happens only after a restart resets
/// the counter). Any two views are therefore ordered, and both nodes
/// always pick the same one.
#[derive(Clone, Copy, Debug, PartialEq, Eq, Structural, Hash)]
pub struct View {
    pub epoch: u32,
    pub decider: Node,
    pub holder: Holder,
}

impl View {
    /// (epoch, decider, holder) compared lexicographically.
    pub open spec fn newer(self, other: View) -> bool {
        ||| self.epoch > other.epoch
        ||| self.epoch == other.epoch && self.decider.rank() > other.decider.rank()
        ||| self.epoch == other.epoch && self.decider == other.decider
            && self.holder.order_rank() > other.holder.order_rank()
    }

    pub fn is_newer_than(&self, other: &View) -> (r: bool)
        ensures
            r == self.newer(*other),
    {
        if self.epoch != other.epoch {
            return self.epoch > other.epoch;
        }
        if self.decider != other.decider {
            return self.decider == Node::Pc;
        }
        self.holder.rank() > other.holder.rank()
    }
}

/// Where the pointer enters after an edge switch: just inside the facing
/// edge, at this height (0 = top, 65535 = bottom).
#[derive(Clone, Copy, Debug, PartialEq, Eq, Structural, Hash)]
pub struct Entry {
    pub height: u16,
}

#[derive(Clone, Copy, Debug, PartialEq, Eq, Structural, Hash)]
pub enum Mode {
    /// Each computer's devices control only that computer.
    Split,
    /// All input goes to this computer.
    Focused,
    /// On the way to Unfocused: the board's gate is closing (`confirmed`
    /// once the board says so, then the settle time runs). Own input is
    /// dropped meanwhile.
    Closing { confirmed: bool },
    /// Own input is swallowed and forwarded to the other computer.
    Unfocused,
}

#[derive(Clone, Copy, Debug, PartialEq, Eq, Structural, Hash)]
pub enum Event {
    /// The pointer was pushed past this screen's facing edge by the
    /// resistance, by any device.
    EdgePushed(Entry),
    /// The switch hotkey on this computer's own keyboard.
    Hotkey,
    /// A view from the other daemon, with the entry position if it came
    /// with an edge switch.
    ViewReceived(View, Option<Entry>),
    LinkUp,
    LinkDown,
    /// Nothing heard from the other daemon for 3 s.
    PeerSilent,
    BoardLost,
    BoardBack,
    /// Time to send the view again (every second).
    KeepaliveDue,
    /// The board confirms it closed its input gate, answering the
    /// close request with this number.
    GateClosed(u8),
    /// No confirmation within 100 ms.
    GateTimeout,
    /// The settle time after the board's gate closed is over.
    SettleDone,
}

#[derive(Clone, Copy, Debug, PartialEq, Eq, Structural, Hash)]
pub enum Action {
    /// Send this view to the other daemon (through the board).
    SendView(View, Option<Entry>),
    /// Ask the board to close its input gate. It answers with
    /// GateClosed carrying the same number: a late answer to an earlier
    /// request must not be taken for this one.
    CloseGate(u8),
    OpenGate,
    /// Start the settle timer; SettleDone when it runs out.
    StartSettle,
    /// Start or stop forwarding own input.
    Forwarding(bool),
    /// Send the other board the keys and buttons still held that were
    /// forwarded ([`Machine::forwarded_held`]). It lets go of any others
    /// it holds, which repairs a release the radio lost.
    SendKeyState,
    Pointer(Pointer),
}

#[derive(Clone, Copy, Debug, PartialEq, Eq, Structural, Hash)]
pub enum Pointer {
    /// Remember where the pointer is and keep it there (Mac: hide it).
    Freeze,
    /// Show it again where it was.
    Resume,
    /// Put it just inside the facing edge at this height, and show it.
    Enter(Entry),
}

/// What to do with an input event that reached this daemon's capture.
#[derive(Clone, Copy, Debug, PartialEq, Eq, Structural, Hash)]
pub enum Route {
    /// Let this computer have it.
    Pass,
    /// Swallow it and send it to the other computer.
    Forward,
    /// Swallow it.
    Drop,
}

/// Where the pointer goes when the focus arrives here: entering at the
/// given height, or resuming where it stopped.
pub open spec fn place(entry: Option<Entry>) -> Action {
    match entry {
        Some(e) => Action::Pointer(Pointer::Enter(e)),
        None => Action::Pointer(Pointer::Resume),
    }
}

/// The number after `n`, wrapping from 255 to 0.
pub open spec fn next_request(n: u8) -> u8 {
    if n == 255 {
        0
    } else {
        (n + 1) as u8
    }
}

/// The machine's state, as values: what the contracts and laws speak of.
pub struct FocusState {
    pub me: Node,
    pub view: View,
    pub mode: Mode,
    /// Highest epoch seen, own or received: a new view gets this + 1.
    pub highest_epoch: u32,
    pub link_up: bool,
    pub board: bool,
    /// Heard from the other daemon since it last went silent.
    pub peer_heard: bool,
    /// Where the press of each key or button still held went.
    pub pressed: Map<u32, Route>,
    /// Number of the latest gate close request.
    pub close_request: u8,
}

impl FocusState {
    /// The mode agrees with the view (split mode exactly when the view
    /// says split, focused exactly when it names this computer, closing or
    /// unfocused exactly when it names the other one), and no view is
    /// newer than the highest epoch seen.
    pub open spec fn wf(self) -> bool {
        &&& (self.view.holder == Holder::Split) <==> (self.mode == Mode::Split)
        &&& (self.view.holder == Holder::At(self.me)) <==> (self.mode
            == Mode::Focused)
        &&& (self.view.holder == Holder::At(self.me.opposite())) <==> (
        self.mode is Closing || self.mode is Unfocused)
        &&& self.view.epoch <= self.highest_epoch
    }

    /// Everything but the pressed keys is the same in both.
    pub open spec fn same_focus(self, other: FocusState) -> bool {
        &&& self.me == other.me
        &&& self.view == other.view
        &&& self.mode == other.mode
        &&& self.highest_epoch == other.highest_epoch
        &&& self.link_up == other.link_up
        &&& self.board == other.board
        &&& self.peer_heard == other.peer_heard
        &&& self.close_request == other.close_request
    }

    /// The peer can be reached: link and board both up.
    pub open spec fn reaches_peer(self) -> bool {
        self.link_up && self.board
    }

    /// Where input goes in the current mode.
    pub open spec fn route_in_mode(self) -> Route {
        match self.mode {
            Mode::Focused | Mode::Split => Route::Pass,
            Mode::Closing { .. } => Route::Drop,
            Mode::Unfocused => Route::Forward,
        }
    }

    // ── transitions ─────────────────────────────────────────────────

    /// Brings the mode in line with the current view.
    pub open spec fn aligned(self, entry: Option<Entry>) -> (FocusState, Seq<Action>) {
        match self.view.holder {
            Holder::At(node) => if node == self.me {
                match self.mode {
                    Mode::Focused => (self, seq![]),
                    Mode::Split => (
                        FocusState { mode: Mode::Focused, ..self },
                        match entry {
                            Some(e) => seq![Action::Pointer(Pointer::Enter(e))],
                            None => seq![],
                        },
                    ),
                    Mode::Closing { .. } => (
                        FocusState { mode: Mode::Focused, ..self },
                        seq![Action::OpenGate, place(entry)],
                    ),
                    Mode::Unfocused => (
                        FocusState { mode: Mode::Focused, ..self },
                        seq![Action::Forwarding(false), Action::OpenGate, place(entry)],
                    ),
                }
            } else {
                match self.mode {
                    Mode::Focused | Mode::Split => {
                        let n = next_request(self.close_request);
                        (
                            FocusState {
                                mode: Mode::Closing { confirmed: false },
                                close_request: n,
                                ..self
                            },
                            seq![Action::Pointer(Pointer::Freeze), Action::CloseGate(n)],
                        )
                    },
                    _ => (self, seq![]),
                }
            },
            Holder::Split => match self.mode {
                Mode::Split => (self, seq![]),
                Mode::Focused => (FocusState { mode: Mode::Split, ..self }, seq![]),
                Mode::Closing { .. } => (
                    FocusState { mode: Mode::Split, ..self },
                    seq![Action::OpenGate, Action::Pointer(Pointer::Resume)],
                ),
                Mode::Unfocused => (
                    FocusState { mode: Mode::Split, ..self },
                    seq![
                        Action::Forwarding(false),
                        Action::OpenGate,
                        Action::Pointer(Pointer::Resume),
                    ],
                ),
            },
        }
    }

    /// A new view made here, epoch one above the highest seen, sent to the
    /// other daemon before the mode follows it.
    pub open spec fn decided(self, holder: Holder, entry: Option<Entry>) -> (FocusState, Seq<Action>) {
        let epoch = (self.highest_epoch + 1) as u32;
        let view = View { epoch, decider: self.me, holder };
        let m = FocusState { highest_epoch: epoch, view, ..self };
        let r = m.aligned(None);
        (r.0, seq![Action::SendView(view, entry)] + r.1)
    }

    /// Link, other daemon or board gone: split mode, unless already there.
    pub open spec fn fallen_back(self) -> (FocusState, Seq<Action>) {
        if self.view.holder != Holder::Split {
            self.decided(Holder::Split, None)
        } else {
            (self, seq![])
        }
    }

    /// Whether handling `event` makes a new view here.
    pub open spec fn decides(self, event: Event) -> bool {
        match event {
            Event::EdgePushed(_) => (self.mode == Mode::Focused || self.mode == Mode::Split)
                && self.link_up && self.board,
            Event::Hotkey => ((self.mode == Mode::Focused || self.mode == Mode::Split)
                && self.link_up && self.board) || self.mode == Mode::Unfocused,
            Event::LinkDown | Event::BoardLost => self.view.holder != Holder::Split,
            Event::PeerSilent => self.peer_heard && self.view.holder != Holder::Split,
            Event::GateTimeout => self.mode == (Mode::Closing { confirmed: false })
                && self.view.holder != Holder::Split,
            _ => false,
        }
    }

    /// The machine can take `event`: a view it makes gets a number that
    /// fits its counter.
    pub open spec fn accepts(self, event: Event) -> bool {
        !(self.decides(event) && self.highest_epoch == u32::MAX)
    }

    /// The machine after `event`, and the actions it asks for, in order.
    pub open spec fn next(self, event: Event) -> (FocusState, Seq<Action>) {
        match event {
            Event::EdgePushed(entry) => if (self.mode == Mode::Focused || self.mode == Mode::Split)
                && self.link_up && self.board {
                self.decided(Holder::At(self.me.opposite()), Some(entry))
            } else {
                (self, seq![])
            },
            Event::Hotkey => match self.mode {
                Mode::Focused | Mode::Split => if self.link_up && self.board {
                    self.decided(Holder::At(self.me.opposite()), None)
                } else {
                    (self, seq![])
                },
                Mode::Unfocused => self.decided(Holder::At(self.me), None),
                Mode::Closing { .. } => (self, seq![]),
            },
            Event::ViewReceived(view, entry) => {
                let m = FocusState {
                    peer_heard: true,
                    highest_epoch: if view.epoch > self.highest_epoch {
                        view.epoch
                    } else {
                        self.highest_epoch
                    },
                    ..self
                };
                if view.newer(self.view) {
                    FocusState { view, ..m }.aligned(entry)
                } else {
                    (m, seq![])
                }
            },
            Event::LinkUp => (
                FocusState { link_up: true, ..self },
                seq![Action::SendView(self.view, None)],
            ),
            Event::LinkDown => FocusState { link_up: false, ..self }.fallen_back(),
            Event::PeerSilent => if self.peer_heard {
                FocusState { peer_heard: false, ..self }.fallen_back()
            } else {
                (self, seq![])
            },
            Event::BoardLost => FocusState { board: false, link_up: false, ..self }.fallen_back(),
            Event::BoardBack => (
                FocusState { board: true, ..self },
                seq![Action::OpenGate, Action::SendView(self.view, None)],
            ),
            Event::KeepaliveDue => (
                self,
                if self.mode == Mode::Unfocused {
                    seq![Action::SendView(self.view, None), Action::SendKeyState]
                } else {
                    seq![Action::SendView(self.view, None)]
                },
            ),
            Event::GateClosed(request) => if self.mode == (Mode::Closing { confirmed: false })
                && request == self.close_request {
                (FocusState { mode: Mode::Closing { confirmed: true }, ..self }, seq![Action::StartSettle])
            } else {
                (self, seq![])
            },
            Event::SettleDone => if self.mode == (Mode::Closing { confirmed: true }) {
                (FocusState { mode: Mode::Unfocused, ..self }, seq![Action::Forwarding(true)])
            } else {
                (self, seq![])
            },
            Event::GateTimeout => if self.mode == (Mode::Closing { confirmed: false }) {
                FocusState { board: false, link_up: false, ..self }.fallen_back()
            } else {
                (self, seq![])
            },
        }
    }

    /// The machine after `events`, handled in order.
    pub open spec fn run(self, events: Seq<Event>) -> FocusState
        decreases events.len(),
    {
        if events.len() == 0 {
            self
        } else {
            self.run(events.drop_last()).next(events.last()).0
        }
    }

    /// `ids` are the keys and buttons held whose press was forwarded, in
    /// increasing order.
    pub open spec fn forwarded_in_order(self, ids: Seq<u32>) -> bool {
        &&& forall|i: int, j: int| 0 <= i < j < ids.len() ==> ids[i] < ids[j]
        &&& forall|id: u32|
            ids.contains(id) <==> (self.pressed.contains_key(id) && self.pressed[id]
                == Route::Forward)
    }

    /// `after` is `before` once a press of `id` was routed to `route`.
    pub open spec fn pressed_into(before: FocusState, id: u32, after: FocusState, route: Route) -> bool {
        &&& route == before.route_in_mode()
        &&& after.pressed == before.pressed.insert(id, route)
        &&& after.same_focus(before)
    }

    /// `after` is `before` once a release of `id` was routed to `route`:
    /// where its press went, or to this computer for a press it never saw.
    pub open spec fn released_from(before: FocusState, id: u32, after: FocusState, route: Route) -> bool {
        &&& route == (if before.pressed.contains_key(id) {
            before.pressed[id]
        } else {
            Route::Pass
        })
        &&& after.pressed == before.pressed.remove(id)
        &&& after.same_focus(before)
    }
}

#[derive(Clone, Debug, PartialEq, Eq, Hash)]
pub struct Machine {
    me: Node,
    view: View,
    mode: Mode,
    /// Highest epoch seen, own or received: a new view gets this + 1.
    highest_epoch: u32,
    link_up: bool,
    board: bool,
    /// Heard from the other daemon since it last went silent. Only a
    /// daemon that was there can "go silent"; with none there at all
    /// the user may switch to that computer on purpose.
    peer_heard: bool,
    /// Where the press of each key or button still held went, so its
    /// release goes to the same place.
    pressed: BTreeMap<u32, Route>,
    /// Number of the latest gate close request.
    close_request: u8,
}

impl Machine {
    /// The machine's state, as values.
    pub closed spec fn state(self) -> FocusState {
        FocusState {
            me: self.me,
            view: self.view,
            mode: self.mode,
            highest_epoch: self.highest_epoch,
            link_up: self.link_up,
            board: self.board,
            peer_heard: self.peer_heard,
            pressed: self.pressed@,
            close_request: self.close_request,
        }
    }

    // ── the machine ─────────────────────────────────────────────────

    /// A daemon that just started: split mode, gate open.
    pub fn new(me: Node, board: bool, link_up: bool) -> (r: (Machine, Vec<Action>))
        ensures
            r.0.state() == (FocusState {
                me,
                view: View { epoch: 0, decider: me, holder: Holder::Split },
                mode: Mode::Split,
                highest_epoch: 0,
                link_up,
                board,
                peer_heard: false,
                pressed: Map::empty(),
                close_request: 0,
            }),
            r.0.state().wf(),
            r.1@ == (if board {
                seq![
                    Action::OpenGate,
                    Action::SendView(View { epoch: 0, decider: me, holder: Holder::Split }, None),
                ]
            } else {
                seq![]
            }),
    {
        let view = View { epoch: 0, decider: me, holder: Holder::Split };
        let m = Machine {
            me,
            view,
            mode: Mode::Split,
            highest_epoch: 0,
            link_up,
            board,
            peer_heard: false,
            pressed: BTreeMap::new(),
            close_request: 0,
        };
        let mut out: Vec<Action> = Vec::new();
        if board {
            out.push(Action::OpenGate);
            out.push(Action::SendView(view, None));
        }
        (m, out)
    }

    pub fn view(&self) -> (r: View)
        ensures
            r == self.state().view,
    {
        self.view
    }

    pub fn mode(&self) -> (r: Mode)
        ensures
            r == self.state().mode,
    {
        self.mode
    }

    pub fn forwarding(&self) -> (r: bool)
        ensures
            r == (self.state().mode == Mode::Unfocused),
    {
        self.mode == Mode::Unfocused
    }

    pub fn peer_heard(&self) -> (r: bool)
        ensures
            r == self.state().peer_heard,
    {
        self.peer_heard
    }

    /// Whether [`Machine::handle`] can take `event`: false only when the
    /// event would make a new view and the epoch counter is at its limit.
    pub fn can_handle(&self, event: Event) -> (r: bool)
        ensures
            r == self.state().accepts(event),
    {
        let decides = match event {
            Event::EdgePushed(_) => (self.mode == Mode::Focused || self.mode == Mode::Split)
                && self.link_up && self.board,
            Event::Hotkey => ((self.mode == Mode::Focused || self.mode == Mode::Split)
                && self.link_up && self.board) || self.mode == Mode::Unfocused,
            Event::LinkDown | Event::BoardLost => self.view.holder != Holder::Split,
            Event::PeerSilent => self.peer_heard && self.view.holder != Holder::Split,
            Event::GateTimeout => self.mode == (Mode::Closing { confirmed: false })
                && self.view.holder != Holder::Split,
            _ => false,
        };
        !(decides && self.highest_epoch == u32::MAX)
    }

    pub fn handle(&mut self, event: Event) -> (out: Vec<Action>)
        requires
            old(self).state().accepts(event),
        ensures
            final(self).state() == old(self).state().next(event).0,
            out@ == old(self).state().next(event).1,
            old(self).state().wf() ==> final(self).state().wf(),
    {
        let mut out: Vec<Action> = Vec::new();
        match event {
            // Input can only go to the other computer over the link: with
            // it down, a switch there is ignored (and the user told).
            Event::EdgePushed(entry) => {
                if (self.mode == Mode::Focused || self.mode == Mode::Split) && self.can_reach_peer() {
                    let there = Holder::At(self.me.other());
                    self.decide(there, Some(entry), &mut out);
                }
            },
            Event::Hotkey => match self.mode {
                Mode::Focused | Mode::Split => {
                    if self.can_reach_peer() {
                        let there = Holder::At(self.me.other());
                        self.decide(there, None, &mut out);
                    }
                },
                Mode::Unfocused => {
                    let here = Holder::At(self.me);
                    self.decide(here, None, &mut out);
                },
                Mode::Closing { .. } => {},  // own input is dropped while closing
            },
            Event::ViewReceived(view, entry) => {
                self.peer_heard = true;
                if view.epoch > self.highest_epoch {
                    self.highest_epoch = view.epoch;
                }
                if view.is_newer_than(&self.view) {
                    self.view = view;
                    self.apply(entry, &mut out);
                }
            },
            Event::LinkUp => {
                self.link_up = true;
                out.push(Action::SendView(self.view, None));
            },
            Event::LinkDown => {
                self.link_up = false;
                self.fall_back(&mut out);
            },
            Event::PeerSilent => {
                if self.peer_heard {
                    self.peer_heard = false;
                    self.fall_back(&mut out);
                }
            },
            Event::BoardLost => {
                self.board = false;
                self.link_up = false;
                self.fall_back(&mut out);
            },
            Event::BoardBack => {
                self.board = true;
                // A board that lost its daemon's connection opens its gate;
                // we are in split mode after BoardLost, so keep it so.
                out.push(Action::OpenGate);
                out.push(Action::SendView(self.view, None));
            },
            Event::KeepaliveDue => {
                out.push(Action::SendView(self.view, None));
                if self.forwarding() {
                    out.push(Action::SendKeyState);
                }
            },
            Event::GateClosed(request) => {
                if self.mode == (Mode::Closing { confirmed: false }) && request == self.close_request {
                    self.mode = Mode::Closing { confirmed: true };
                    out.push(Action::StartSettle);
                }
            },
            Event::SettleDone => {
                if self.mode == (Mode::Closing { confirmed: true }) {
                    self.mode = Mode::Unfocused;
                    out.push(Action::Forwarding(true));
                }
            },
            Event::GateTimeout => {
                if self.mode == (Mode::Closing { confirmed: false }) {
                    self.board = false;
                    self.link_up = false;
                    self.fall_back(&mut out);
                }
            },
        }
        proof {
            if old(self).state().wf() {
                laws::lemma_next_keeps_wf(old(self).state(), event);
            }
        }
        out
    }

    fn can_reach_peer(&self) -> (r: bool)
        ensures
            r == self.state().reaches_peer(),
    {
        self.link_up && self.board
    }

    /// Where an input event goes now, by mode.
    fn route_now(&self) -> (r: Route)
        ensures
            r == self.state().route_in_mode(),
    {
        match self.mode {
            Mode::Focused | Mode::Split => Route::Pass,
            Mode::Closing { .. } => Route::Drop,
            Mode::Unfocused => Route::Forward,
        }
    }

    /// A key or button went down (`id`: which one). Remembered, so its
    /// release follows it.
    pub fn route_press(&mut self, id: u32) -> (r: Route)
        ensures
            FocusState::pressed_into(old(self).state(), id, final(self).state(), r),
    {
        let route = self.route_now();
        self.pressed.insert(id, route);
        route
    }

    /// A key or button went up: same place as its press. One pressed
    /// before this daemon started goes to this computer.
    pub fn route_release(&mut self, id: u32) -> (r: Route)
        ensures
            FocusState::released_from(old(self).state(), id, final(self).state(), r),
    {
        match self.pressed.remove(&id) {
            Some(route) => route,
            None => Route::Pass,
        }
    }

    /// A held key repeats (auto-repeat): where its press went, which
    /// stays as it was. One pressed before this daemon started goes to
    /// this computer.
    pub fn route_held(&self, id: u32) -> (r: Route)
        ensures
            r == (if self.state().pressed.contains_key(id) {
                self.state().pressed[id]
            } else {
                Route::Pass
            }),
    {
        match self.pressed.get(&id) {
            Some(route) => *route,
            None => Route::Pass,
        }
    }

    /// Movement and scrolling: no memory needed.
    pub fn route_motion(&self) -> (r: Route)
        ensures
            r == self.state().route_in_mode(),
    {
        self.route_now()
    }

    /// Keys and buttons still held whose press was forwarded, in
    /// increasing order.
    pub fn forwarded_held(&self) -> (r: Vec<u32>)
        ensures
            self.state().forwarded_in_order(r@),
    {
        let mut held: Vec<u32> = Vec::new();
        proof {
            assert(vstd::laws_cmp::obeys_cmp::<u32>());
            assert(vstd::std_specs::btree::key_obeys_cmp_spec::<u32>());
        }
        let ghost m = self.state().pressed;
        let ghost all = vstd::std_specs::btree::spec_btree_map_iter(&self.pressed).remaining();
        let ghost keys = all.map_values(|kv: (&u32, &Route)| *kv.0);
        // Where in `all` each element of `held` came from.
        let ghost mut from: Seq<int> = Seq::empty();
        for (id, route) in it: self.pressed.iter()
            invariant
                it.seq() == all,
                keys == all.map_values(|kv: (&u32, &Route)| *kv.0),
                vstd::std_specs::btree::increasing_seq(keys),
                forall|i: int|
                    0 <= i < all.len() ==> m.contains_key(*all[i].0) && m[*all[i].0] == *all[i].1,
                forall|k: u32| #[trigger] m.contains_key(k) ==> all.contains((&k, &m[k])),
                from.len() == held.len(),
                forall|k: int|
                    0 <= k < held.len() ==> 0 <= #[trigger] from[k] < it.index() && keys[from[k]]
                        == held[k] && *all[from[k]].1 == Route::Forward,
                forall|i: int, j: int| 0 <= i < j < held.len() ==> from[i] < from[j],
                forall|i: int|
                    0 <= i < it.index() && *all[i].1 == Route::Forward ==> held@.contains(
                        #[trigger] keys[i],
                    ),
        {
            let ghost idx = it.index();
            let ghost before = held@;
            proof {
                assert(keys[idx] == *id);
                assert(*all[idx].1 == *route);
            }
            if *route == Route::Forward {
                held.push(*id);
                proof {
                    from = from.push(idx);
                }
            }
            proof {
                assert forall|i: int|
                    0 <= i <= idx && *all[i].1 == Route::Forward implies held@.contains(
                    keys[i],
                ) by {
                    if i < idx {
                        let k = choose|k: int| 0 <= k < before.len() && before[k] == keys[i];
                        assert(held@[k] == keys[i]);
                    } else {
                        assert(held@[held.len() - 1] == keys[i]);
                    }
                }
            }
        }
        proof {
            assert forall|i: int, j: int| 0 <= i < j < held.len() implies held[i] < held[j] by {
                sorted::lemma_increasing_keys(keys, from[i], from[j]);
            }
            assert forall|id0: u32|
                m.contains_key(id0) && m[id0] == Route::Forward implies held@.contains(id0) by {
                let i = choose|i: int| 0 <= i < all.len() && all[i] == (&id0, &m[id0]);
                assert(keys[i] == id0);
            }
            assert forall|id0: u32|
                held@.contains(id0) implies (m.contains_key(id0) && m[id0] == Route::Forward) by {
                let k = choose|k: int| 0 <= k < held.len() && held[k] == id0;
                assert(keys[from[k]] == id0);
            }
        }
        held
    }

    /// A new view made here: epoch = highest seen + 1.
    fn decide(&mut self, holder: Holder, entry: Option<Entry>, out: &mut Vec<Action>)
        requires
            old(self).state().highest_epoch < u32::MAX,
        ensures
            final(self).state() == old(self).state().decided(holder, entry).0,
            final(out)@ == old(out)@ + old(self).state().decided(holder, entry).1,
    {
        self.highest_epoch = self.highest_epoch + 1;
        self.view = View { epoch: self.highest_epoch, decider: self.me, holder };
        // The entry position is for the computer that becomes focused.
        out.push(Action::SendView(self.view, entry));
        self.apply(None, out);
        proof {
            assert(final(out)@ =~= old(out)@ + old(self).state().decided(holder, entry).1);
        }
    }

    /// Link, other daemon or board gone: split mode, unless already there.
    fn fall_back(&mut self, out: &mut Vec<Action>)
        requires
            old(self).state().view.holder != Holder::Split ==> old(self).state().highest_epoch
                < u32::MAX,
        ensures
            final(self).state() == old(self).state().fallen_back().0,
            final(out)@ == old(out)@ + old(self).state().fallen_back().1,
    {
        if self.view.holder != Holder::Split {
            self.decide(Holder::Split, None, out);
        } else {
            proof {
                assert(final(out)@ =~= old(out)@ + old(self).state().fallen_back().1);
            }
        }
    }

    /// Brings the mode in line with the current view.
    fn apply(&mut self, entry: Option<Entry>, out: &mut Vec<Action>)
        ensures
            final(self).state() == old(self).state().aligned(entry).0,
            final(out)@ == old(out)@ + old(self).state().aligned(entry).1,
    {
        match self.view.holder {
            Holder::At(node) => {
                if node == self.me {
                    match self.mode {
                        Mode::Focused => {},
                        Mode::Split => {
                            self.mode = Mode::Focused;
                            if let Some(entry) = entry {
                                out.push(Action::Pointer(Pointer::Enter(entry)));
                            }
                        },
                        Mode::Closing { .. } => {
                            self.mode = Mode::Focused;
                            out.push(Action::OpenGate);
                            out.push(Self::place_pointer(entry));
                        },
                        Mode::Unfocused => {
                            // Stop forwarding before the board's gate opens.
                            out.push(Action::Forwarding(false));
                            out.push(Action::OpenGate);
                            self.mode = Mode::Focused;
                            out.push(Self::place_pointer(entry));
                        },
                    }
                } else {
                    match self.mode {
                        Mode::Focused | Mode::Split => {
                            self.mode = Mode::Closing { confirmed: false };
                            self.close_request = self.close_request.wrapping_add(1);
                            out.push(Action::Pointer(Pointer::Freeze));
                            out.push(Action::CloseGate(self.close_request));
                        },
                        Mode::Closing { .. } | Mode::Unfocused => {},
                    }
                }
            },
            Holder::Split => match self.mode {
                Mode::Split => {},
                Mode::Focused => self.mode = Mode::Split,
                Mode::Closing { .. } => {
                    self.mode = Mode::Split;
                    out.push(Action::OpenGate);
                    out.push(Action::Pointer(Pointer::Resume));
                },
                Mode::Unfocused => {
                    out.push(Action::Forwarding(false));
                    out.push(Action::OpenGate);
                    self.mode = Mode::Split;
                    out.push(Action::Pointer(Pointer::Resume));
                },
            },
        }
        proof {
            assert(final(out)@ =~= old(out)@ + old(self).state().aligned(entry).1);
        }
    }

    /// The pointer action for a focus arriving here.
    fn place_pointer(entry: Option<Entry>) -> (r: Action)
        ensures
            r == place(entry),
    {
        match entry {
            Some(e) => Action::Pointer(Pointer::Enter(e)),
            None => Action::Pointer(Pointer::Resume),
        }
    }
}

} // verus!
