//! Where the input side and the board side meet.
//!
//! Both use the focus state machine: the input side to route each input
//! event and to report edge pushes and the hotkey; the board side for what
//! the board and the other daemon report, and for the timers. What the
//! machine asks for, and each input packet to forward, goes into one queue
//! that the board side works through in order.
//!
//! The queue is only ever filled through the locked hub ([`Guard`]), so
//! its order is the order in which the machine made its decisions: the
//! board is told to close its gate before it gets input forwarded after
//! that, a view goes out before the input forwarded under it, and so on.
//! (The program around the library holds the hub behind a lock shared by
//! its threads, and hands the queue on while it holds it.)

use vstd::prelude::*;
use vstd::view::View as _;

use crate::focus::{Action, Entry, Event, FocusState, Machine, Mode, Node, Pointer, Route, View};
use crate::input;

verus! {

/// Work for the board side, in the order the machine decided it.
#[derive(Debug, Clone, Copy, PartialEq, Eq)]
pub enum Out {
    /// Input for the other computer: message type and payload.
    Input(u8, [u8; 5]),
    View(View, Option<Entry>),
    CloseGate(u8),
    OpenGate,
    /// MSG_KEY_STATE payload.
    KeyState([u8; 8]),
    StartSettle,
    Pointer(Pointer),
    /// The view or the mode changed (for the log).
    Changed(View, Mode),
    /// A switch towards the other computer was ignored: it cannot be
    /// reached (link or board down).
    Ignored,
}

/// The work item for an action that becomes one on its own.
pub open spec fn out_of(a: Action) -> Out {
    match a {
        Action::SendView(view, entry) => Out::View(view, entry),
        Action::CloseGate(n) => Out::CloseGate(n),
        Action::OpenGate => Out::OpenGate,
        Action::StartSettle => Out::StartSettle,
        Action::Pointer(p) => Out::Pointer(p),
        _ => Out::Ignored,
    }
}

/// `outs` are the work items for `actions`, one for one and in order,
/// except that the mode alone says whether input is forwarded (no item for
/// `Forwarding`), and a key state is sent only when a report can describe
/// it (`held`: the forwarded keys and buttons, in increasing order).
pub open spec fn outs_for(actions: Seq<Action>, held: Seq<u32>, outs: Seq<Out>) -> bool
    decreases actions.len(),
{
    if actions.len() == 0 {
        outs.len() == 0
    } else {
        let a = actions.last();
        match a {
            Action::Forwarding(_) => outs_for(actions.drop_last(), held, outs),
            Action::SendKeyState => match input::key_report(held) {
                None => outs_for(actions.drop_last(), held, outs),
                Some(report) => outs.len() > 0 && (match outs.last() {
                    Out::KeyState(state) => state@ == report,
                    _ => false,
                }) && outs_for(actions.drop_last(), held, outs.drop_last()),
            },
            _ => outs.len() > 0 && outs.last() == out_of(a) && outs_for(
                actions.drop_last(),
                held,
                outs.drop_last(),
            ),
        }
    }
}

/// What the log hears after `event` took `before` to `after`: the new
/// view and mode if either changed, or that a switch towards the other
/// computer was ignored.
pub open spec fn note(before: FocusState, after: FocusState, event: Event) -> Seq<Out> {
    if after.view != before.view || after.mode != before.mode {
        seq![Out::Changed(after.view, after.mode)]
    } else if (event == Event::Hotkey || event is EdgePushed) && (after.mode == Mode::Split
        || after.mode == Mode::Focused) {
        seq![Out::Ignored]
    } else {
        seq![]
    }
}

/// The machine and its queue, locked.
pub struct Guard {
    machine: Machine,
    queue: Vec<Out>,
}

pub struct Hub {
    inner: Guard,
}

impl Guard {
    pub closed spec fn state(self) -> FocusState {
        self.machine.state()
    }

    pub closed spec fn queued(self) -> Seq<Out> {
        self.queue@
    }

    /// The work `event` adds to the queue: the items for the machine's
    /// actions in order, then the note for the log.
    pub open spec fn queues(self, event: Event, added: Seq<Out>) -> bool {
        let (after, actions) = self.state().next(event);
        exists|held: Seq<u32>, items: Seq<Out>|
            {
                &&& self.state().forwarded_in_order(held)
                &&& outs_for(actions, held, items)
                &&& added == items + note(self.state(), after, event)
            }
    }

    /// `after` is this guard once `event` was handled: the machine moved
    /// on as [`FocusState::next`] says, and the queue kept what it held and
    /// grew by what [`Guard::queues`] allows.
    pub open spec fn handled_into(self, event: Event, after: Guard) -> bool {
        &&& after.state() == self.state().next(event).0
        &&& after.queued().len() >= self.queued().len()
        &&& after.queued().take(self.queued().len() as int) == self.queued()
        &&& self.queues(event, after.queued().skip(self.queued().len() as int))
    }

    /// `gs` are the guards from this one to `after`, one more than
    /// `events`: each the one before it once its event was handled.
    pub open spec fn steps(self, events: Seq<Event>, gs: Seq<Guard>, after: Guard) -> bool {
        &&& gs.len() == events.len() + 1
        &&& gs[0].state() == self.state()
        &&& gs[0].queued() == self.queued()
        &&& gs.last() == after
        &&& forall|i: int|
            #![trigger events[i]]
            0 <= i < events.len() ==> gs[i].handled_into(events[i], gs[i + 1])
    }

    /// `after` is this guard once `events` were handled, in order.
    pub open spec fn handled_all(self, events: Seq<Event>, after: Guard) -> bool {
        exists|gs: Seq<Guard>| #[trigger] self.steps(events, gs, after)
    }

    /// Hands the machine an event and queues what it decided, in order.
    pub fn handle(&mut self, event: Event)
        requires
            old(self).state().accepts(event),
        ensures
            final(self).state() == old(self).state().next(event).0,
            old(self).state().wf() ==> final(self).state().wf(),
            final(self).queued().len() >= old(self).queued().len(),
            final(self).queued().take(old(self).queued().len() as int) == old(self).queued(),
            old(self).queues(event, final(self).queued().skip(old(self).queued().len() as int)),
    {
        let ghost start = self.queue@;
        let ghost old_state = self.machine.state();
        let before_view = self.machine.view();
        let before_mode = self.machine.mode();
        let actions = self.machine.handle(event);
        let ghost after = self.machine.state();
        // Taken now, so that it matches the input queued before it.
        let held = self.machine.forwarded_held();
        let ghost mut items: Seq<Out> = seq![];
        let mut i: usize = 0;
        while i < actions.len()
            invariant
                i <= actions@.len(),
                self.machine.state() == after,
                self.queue@ == start + items,
                old_state.forwarded_in_order(held@),
                outs_for(actions@.take(i as int), held@, items),
            decreases actions@.len() - i,
        {
            let action = actions[i];
            proof {
                assert(actions@.take(i + 1).drop_last() =~= actions@.take(i as int));
                assert(actions@.take(i + 1).last() == action);
            }
            match action {
                Action::SendView(view, entry) => self.push(Out::View(view, entry)),
                Action::CloseGate(n) => self.push(Out::CloseGate(n)),
                Action::OpenGate => self.push(Out::OpenGate),
                Action::StartSettle => self.push(Out::StartSettle),
                // The mode says whether input is forwarded; the log shows it.
                Action::Forwarding(_) => {},
                Action::SendKeyState => match input::key_state(held.as_slice()) {
                    Some(state) => self.push(Out::KeyState(state)),
                    None => {},
                },
                Action::Pointer(p) => self.push(Out::Pointer(p)),
            }
            proof {
                let prev = items;
                if self.queue@.len() > start.len() + items.len() {
                    items = items.push(self.queue@.last());
                    assert(items.drop_last() =~= prev);
                }
                assert(self.queue@ =~= start + items);
                let step = actions@.take(i + 1);
                assert(step.drop_last() =~= actions@.take(i as int));
                assert(outs_for(step, held@, items));
            }
            i = i + 1;
        }
        let after_view = self.machine.view();
        let after_mode = self.machine.mode();
        let ghost body = self.queue@;
        if after_view != before_view || after_mode != before_mode {
            self.push(Out::Changed(after_view, after_mode));
        } else if (event == Event::Hotkey || matches!(event, Event::EdgePushed(_))) && (after_mode
            == Mode::Split || after_mode == Mode::Focused) {
            self.push(Out::Ignored);
        }
        proof {
            assert(actions@.take(actions@.len() as int) =~= actions@);
            assert(self.queue@ =~= start + (items + note(old_state, after, event)));
            assert(self.queue@.take(start.len() as int) =~= start);
            assert(self.queue@.skip(start.len() as int) =~= items + note(old_state, after, event));
            assert(old(self).queues(event, self.queue@.skip(start.len() as int)));
        }
    }

    fn push(&mut self, out: Out)
        ensures
            final(self).state() == old(self).state(),
            final(self).queued() == old(self).queued().push(out),
    {
        self.queue.push(out);
    }

    pub fn mode(&self) -> (r: Mode)
        ensures
            r == self.state().mode,
    {
        self.machine.mode()
    }

    pub fn route_press(&mut self, id: u32) -> (r: Route)
        ensures
            FocusState::pressed_into(old(self).state(), id, final(self).state(), r),
            final(self).queued() == old(self).queued(),
    {
        self.machine.route_press(id)
    }

    pub fn route_release(&mut self, id: u32) -> (r: Route)
        ensures
            FocusState::released_from(old(self).state(), id, final(self).state(), r),
            final(self).queued() == old(self).queued(),
    {
        self.machine.route_release(id)
    }

    pub fn route_held(&self, id: u32) -> (r: Route)
        ensures
            r == (if self.state().pressed.contains_key(id) {
                self.state().pressed[id]
            } else {
                Route::Pass
            }),
    {
        self.machine.route_held(id)
    }

    pub fn route_motion(&self) -> (r: Route)
        ensures
            r == self.state().route_in_mode(),
    {
        self.machine.route_motion()
    }

    /// Whether [`Guard::handle`] can take `event` (see [`Machine::can_handle`]).
    pub fn can_handle(&self, event: Event) -> (r: bool)
        ensures
            r == self.state().accepts(event),
    {
        self.machine.can_handle(event)
    }

    /// Queues input for the other computer; only for input the machine
    /// routed `Forward`.
    pub fn forward(&mut self, msg_type: u8, payload: [u8; 5])
        ensures
            final(self).state() == old(self).state(),
            final(self).queued() == old(self).queued().push(Out::Input(msg_type, payload)),
    {
        self.push(Out::Input(msg_type, payload));
    }
}

impl Hub {
    pub closed spec fn locked(self) -> Guard {
        self.inner
    }

    /// A hub for a daemon that just started, with an empty queue. The board
    /// is not open yet: it arrives as `BoardBack`.
    pub fn new(me: Node) -> (r: Hub)
        ensures
            r.locked().state() == (FocusState {
                me,
                view: View { epoch: 0, decider: me, holder: crate::focus::Holder::Split },
                mode: Mode::Split,
                highest_epoch: 0,
                link_up: false,
                board: false,
                peer_heard: false,
                pressed: Map::empty(),
                close_request: 0,
            }),
            r.locked().state().wf(),
            r.locked().queued() == Seq::<Out>::empty(),
    {
        // Nothing to do without a board: no actions.
        let (machine, _actions) = Machine::new(me, false, false);
        Hub { inner: Guard { machine, queue: Vec::new() } }
    }

    pub fn lock(&mut self) -> (g: &mut Guard)
        ensures
            *g == old(self).locked(),
            final(self).locked() == *final(g),
    {
        &mut self.inner
    }

    pub fn handle(&mut self, event: Event)
        requires
            old(self).locked().state().accepts(event),
        ensures
            final(self).locked().state() == old(self).locked().state().next(event).0,
            old(self).locked().state().wf() ==> final(self).locked().state().wf(),
            final(self).locked().queued().len() >= old(self).locked().queued().len(),
            final(self).locked().queued().take(old(self).locked().queued().len() as int) == old(
                self,
            ).locked().queued(),
            old(self).locked().queues(
                event,
                final(self).locked().queued().skip(old(self).locked().queued().len() as int),
            ),
    {
        self.inner.handle(event);
    }

    /// Takes the queued work, in order, leaving the queue empty.
    pub fn take_queue(&mut self) -> (r: Vec<Out>)
        ensures
            r@ == old(self).locked().queued(),
            final(self).locked().queued() == Seq::<Out>::empty(),
            final(self).locked().state() == old(self).locked().state(),
    {
        let mut taken: Vec<Out> = Vec::new();
        std::mem::swap(&mut taken, &mut self.inner.queue);
        taken
    }
}

/// The items for the machine's actions hold no input for the other
/// computer: only [`Guard::forward`] queues input.
pub proof fn lemma_outs_hold_no_input(actions: Seq<Action>, held: Seq<u32>, outs: Seq<Out>)
    requires
        outs_for(actions, held, outs),
    ensures
        forall|i: int| 0 <= i < outs.len() ==> !(outs[i] is Input),
    decreases actions.len(),
{
    if actions.len() > 0 {
        let a = actions.last();
        match a {
            Action::Forwarding(_) => lemma_outs_hold_no_input(actions.drop_last(), held, outs),
            Action::SendKeyState => match input::key_report(held) {
                None => lemma_outs_hold_no_input(actions.drop_last(), held, outs),
                Some(_) => {
                    lemma_outs_hold_no_input(actions.drop_last(), held, outs.drop_last());
                    assert forall|i: int| 0 <= i < outs.len() implies !(outs[i] is Input) by {
                        if i < outs.len() - 1 {
                            assert(outs[i] == outs.drop_last()[i]);
                        }
                    }
                },
            },
            _ => {
                lemma_outs_hold_no_input(actions.drop_last(), held, outs.drop_last());
                assert forall|i: int| 0 <= i < outs.len() implies !(outs[i] is Input) by {
                    if i < outs.len() - 1 {
                        assert(outs[i] == outs.drop_last()[i]);
                    }
                }
            },
        }
    }
}

/// Handling an event queues no input for the other computer: what the
/// machine decides is views, gate commands, pointer work and notes, never
/// a key or a movement.
pub proof fn law_handling_forwards_no_input(g0: Guard, event: Event, g1: Guard)
    requires
        g0.handled_into(event, g1),
    ensures
        forall|i: int|
            g0.queued().len() <= i < g1.queued().len() ==> !(#[trigger] g1.queued()[i] is Input),
{
    let added = g1.queued().skip(g0.queued().len() as int);
    let after = g0.state().next(event).0;
    let actions = g0.state().next(event).1;
    assert(g0.queues(event, added));
    let held = choose|held: Seq<u32>|
        #[trigger] g0.state().forwarded_in_order(held) && exists|items: Seq<Out>|
            {
                &&& g0.state().forwarded_in_order(held)
                &&& outs_for(actions, held, items)
                &&& added == items + note(g0.state(), after, event)
            };
    let items = choose|items: Seq<Out>|
        {
            &&& g0.state().forwarded_in_order(held)
            &&& outs_for(actions, held, items)
            &&& added == items + note(g0.state(), after, event)
        };
    lemma_outs_hold_no_input(actions, held, items);
    assert forall|i: int| g0.queued().len() <= i < g1.queued().len() implies !(
    #[trigger] g1.queued()[i] is Input) by {
        let k = i - g0.queued().len();
        assert(g1.queued()[i] == added[k]);
        if k >= items.len() {
            assert(added[k] == note(g0.state(), after, event)[k - items.len()]);
        }
    }
}

/// Handling no events leaves a guard as it was.
pub proof fn lemma_none_handled(g0: Guard)
    ensures
        g0.handled_all(Seq::empty(), g0),
{
    assert(g0.steps(Seq::empty(), seq![g0], g0));
}

/// Handling one more event, after some.
pub proof fn lemma_one_more_handled(g0: Guard, events: Seq<Event>, gm: Guard, e: Event, g1: Guard)
    requires
        g0.handled_all(events, gm),
        gm.handled_into(e, g1),
        gm.state() == g0.state().run(events),
    ensures
        g0.handled_all(events.push(e), g1),
        g1.state() == g0.state().run(events.push(e)),
{
    let gs = choose|gs: Seq<Guard>| #[trigger] g0.steps(events, gs, gm);
    let gs2 = gs.push(g1);
    let es = events.push(e);
    assert forall|i: int| #![trigger es[i]] 0 <= i < es.len() implies gs2[i].handled_into(
        es[i],
        gs2[i + 1],
    ) by {
        if i < events.len() {
            assert(es[i] == events[i]);
        }
    }
    assert(g0.steps(es, gs2, g1));
    assert(es.drop_last() =~= events);
}

/// Each action the machine asks for becomes the work item of the same
/// name for the board side, carrying the same view, entry, request
/// number or pointer action.
pub proof fn law_actions_become_their_work(view: View, entry: Option<Entry>, n: u8, p: Pointer)
    ensures
        out_of(Action::SendView(view, entry)) == Out::View(view, entry),
        out_of(Action::CloseGate(n)) == Out::CloseGate(n),
        out_of(Action::OpenGate) == Out::OpenGate,
        out_of(Action::StartSettle) == Out::StartSettle,
        out_of(Action::Pointer(p)) == Out::Pointer(p),
{
}

} // verus!
