//! Laws of the focus state machine, proved over its transitions
//! ([`FocusState::next`], [`FocusState::pressed_into`],
//! [`FocusState::released_from`]).

use vstd::prelude::*;

use super::{next_request, Action, Entry, Event, FocusState, Holder, Mode, Node, Pointer, Route, View};

verus! {

/// Aligning the mode with the view makes the mode agree with the view,
/// whatever the mode was.
proof fn lemma_aligned_agrees(m: FocusState, entry: Option<Entry>)
    requires
        m.view.epoch <= m.highest_epoch,
    ensures
        m.aligned(entry).0.wf(),
        m.aligned(entry).0.view == m.view,
        m.aligned(entry).0.highest_epoch == m.highest_epoch,
{
}

/// Every transition keeps the mode in agreement with the view, and the
/// view no newer than the highest epoch seen.
pub proof fn lemma_next_keeps_wf(m: FocusState, e: Event)
    requires
        m.wf(),
    ensures
        m.next(e).0.wf(),
{
}

/// Views are totally ordered by `newer`: never newer than itself, never
/// both ways, transitive, and of two different views one is newer. So both
/// daemons always pick the same one of any two views.
pub proof fn law_views_are_totally_ordered(a: View, b: View, c: View)
    ensures
        !a.newer(a),
        a.newer(b) ==> !b.newer(a),
        a.newer(b) && b.newer(c) ==> a.newer(c),
        a != b ==> a.newer(b) || b.newer(a),
{
}

/// Forwarding starts only once the board confirmed its gate closed and the
/// settle time after that ran out: the machine becomes unfocused, or asks
/// to forward, only on `SettleDone` while closing with its board's gate confirmed.
pub proof fn law_forwarding_starts_only_after_settle(m: FocusState, e: Event)
    requires
        m.wf(),
    ensures
        ({
            let (n, out) = m.next(e);
            &&& (n.mode == Mode::Unfocused && m.mode != Mode::Unfocused) ==> (
            m.mode == (Mode::Closing { confirmed: true }) && e == Event::SettleDone)
            &&& out.contains(Action::Forwarding(true)) ==> (m.mode == (Mode::Closing {
                confirmed: true,
            }) && e == Event::SettleDone)
        }),
{
    match e {
        Event::SettleDone => {},
        Event::ViewReceived(v, entry) => {
            if v.newer(m.view) {
                lemma_aligned_agrees(FocusState { view: v, peer_heard: true, highest_epoch: if v.epoch > m.highest_epoch { v.epoch } else { m.highest_epoch }, ..m }, entry);
            }
        },
        _ => {},
    }
}

/// Forwarding starts exactly when the machine becomes unfocused, and that
/// happens only on `SettleDone` after a confirmed close, with nothing asked
/// but `Forwarding(true)`; a close is confirmed only by the board's answer
/// to the latest close request.
pub proof fn law_forwarding_starts_exactly_after_settle(m: FocusState, e: Event)
    requires
        m.wf(),
    ensures
        ({
            let (n, out) = m.next(e);
            &&& out.contains(Action::Forwarding(true)) <==> (n.mode == Mode::Unfocused && m.mode
                != Mode::Unfocused)
            &&& out.contains(Action::Forwarding(true)) ==> e == Event::SettleDone && m.mode == (
            Mode::Closing { confirmed: true }) && out == seq![Action::Forwarding(true)]
            &&& (m.mode == (Mode::Closing { confirmed: false }) && n.mode == (Mode::Closing {
                confirmed: true,
            })) ==> e == Event::GateClosed(m.close_request)
        }),
{
    law_forwarding_starts_only_after_settle(m, e);
    let (n, out) = m.next(e);
    if e == Event::SettleDone && m.mode == (Mode::Closing { confirmed: true }) {
        assert(out[0] == Action::Forwarding(true));
    }
    if m.mode == (Mode::Closing { confirmed: false }) {
        match e {
            Event::ViewReceived(v, entry) => {
                if v.newer(m.view) {
                    lemma_aligned_agrees(
                        FocusState {
                            view: v,
                            peer_heard: true,
                            highest_epoch: if v.epoch > m.highest_epoch {
                                v.epoch
                            } else {
                                m.highest_epoch
                            },
                            ..m
                        },
                        entry,
                    );
                }
            },
            _ => {},
        }
    }
}

/// A machine that stops forwarding says so before it opens its board's
/// gate: once it was unfocused, every `OpenGate` it asks for comes after a
/// `Forwarding(false)`, and it never leaves unfocused without one. (A
/// board coming back, which the daemon reports only after it lost the
/// board and so left forwarding, opens its gate anyway.)
pub proof fn law_forwarding_stops_before_the_gate_opens(m: FocusState, e: Event)
    requires
        m.wf(),
        m.mode == Mode::Unfocused,
        e != Event::BoardBack,
    ensures
        ({
            let (n, out) = m.next(e);
            &&& forall|i: int|
                0 <= i < out.len() && out[i] == Action::OpenGate ==> exists|j: int|
                    0 <= j < i && out[j] == Action::Forwarding(false)
            &&& n.mode != Mode::Unfocused ==> out.contains(Action::Forwarding(false))
        }),
{
    let (n, out) = m.next(e);
    // Where the Forwarding(false) stands, if any: first, or right after
    // the new view.
    let j: int = if out.len() > 0 && out[0] == Action::Forwarding(false) {
        0
    } else {
        1
    };
    assert(forall|i: int| 0 <= i < out.len() && out[i] == Action::OpenGate ==> j < i && out[j]
        == Action::Forwarding(false));
    if n.mode != Mode::Unfocused {
        match e {
            Event::ViewReceived(v, entry) => {
                assert(out[0] == Action::Forwarding(false));
            },
            _ => {
                assert(out[1] == Action::Forwarding(false));
            },
        }
    }
}

/// An edge switch from a computer that is focused or in split mode, with
/// the other one reachable: a new view giving the focus to the other
/// computer goes out first, with the entry position; then the pointer is
/// frozen and the board's gate closed under a new request number. Own input is
/// dropped from then on.
pub proof fn law_edge_switch_closes_the_gate(m: FocusState, entry: Entry)
    requires
        m.wf(),
        m.accepts(Event::EdgePushed(entry)),
        m.mode == Mode::Split || m.mode == Mode::Focused,
        m.reaches_peer(),
    ensures
        ({
            let (n, out) = m.next(Event::EdgePushed(entry));
            let view = View {
                epoch: (m.highest_epoch + 1) as u32,
                decider: m.me,
                holder: Holder::At(m.me.opposite()),
            };
            &&& n.view == view
            &&& n.mode == (Mode::Closing { confirmed: false })
            &&& n.close_request == next_request(m.close_request)
            &&& n.route_in_mode() == Route::Drop
            &&& out == seq![
                Action::SendView(view, Some(entry)),
                Action::Pointer(Pointer::Freeze),
                Action::CloseGate(next_request(m.close_request)),
            ]
        }),
{
    assert(m.next(Event::EdgePushed(entry)).1 =~= seq![
        Action::SendView(
            View {
                epoch: (m.highest_epoch + 1) as u32,
                decider: m.me,
                holder: Holder::At(m.me.opposite()),
            },
            Some(entry),
        ),
        Action::Pointer(Pointer::Freeze),
        Action::CloseGate(next_request(m.close_request)),
    ]);
}

/// A switch towards the other computer is ignored while it cannot be
/// reached (link or board down): nothing changes and nothing is done.
pub proof fn law_unreachable_switch_is_ignored(m: FocusState, e: Event)
    requires
        e is EdgePushed || e == Event::Hotkey,
        m.mode == Mode::Split || m.mode == Mode::Focused,
        !m.reaches_peer(),
    ensures
        m.next(e) == (m, Seq::<Action>::empty()),
{
}

/// S5, swallowing: a daemon keeps its own computer's input from that
/// computer exactly while it sees the focus on the other computer, and
/// forwards it only then.
pub proof fn law_input_is_kept_only_while_the_focus_is_away(m: FocusState)
    requires
        m.wf(),
    ensures
        (m.route_in_mode() != Route::Pass) == (m.view.holder == Holder::At(m.me.opposite())),
        m.route_in_mode() == Route::Forward ==> m.view.holder == Holder::At(m.me.opposite()),
{
}

/// The hotkey on an unfocused computer's own keyboard always brings the
/// focus back there, whatever the other daemon is doing.
pub proof fn law_hotkey_brings_the_focus_home(m: FocusState)
    requires
        m.wf(),
        m.accepts(Event::Hotkey),
        m.mode == Mode::Unfocused,
    ensures
        ({
            let n = m.next(Event::Hotkey).0;
            &&& n.mode == Mode::Focused
            &&& n.view.holder == Holder::At(m.me)
            &&& n.view.decider == m.me
            &&& n.route_in_mode() == Route::Pass
        }),
{
}

/// Link lost, board lost, or the board's gate never confirmed: split mode, with
/// own input passed to this computer again.
pub proof fn law_link_loss_splits(m: FocusState, e: Event)
    requires
        m.wf(),
        m.accepts(e),
        e == Event::LinkDown || e == Event::BoardLost || (e == Event::GateTimeout
            && m.mode == (Mode::Closing { confirmed: false })),
    ensures
        ({
            let n = m.next(e).0;
            &&& n.mode == Mode::Split
            &&& n.view.holder == Holder::Split
            &&& !n.link_up
            &&& n.route_in_mode() == Route::Pass
        }),
{
}

/// The other daemon going silent after it was heard gives split mode; a
/// daemon never heard cannot go silent, so then nothing changes.
pub proof fn law_silent_peer_splits(m: FocusState)
    requires
        m.wf(),
        m.accepts(Event::PeerSilent),
    ensures
        m.peer_heard ==> {
            let n = m.next(Event::PeerSilent).0;
            &&& n.mode == Mode::Split
            &&& n.view.holder == Holder::Split
            &&& !n.peer_heard
        },
        !m.peer_heard ==> m.next(Event::PeerSilent) == (m, Seq::<Action>::empty()),
{
}

/// A received view replaces the machine's own exactly when it is newer,
/// and its epoch counts as seen either way.
pub proof fn law_newer_view_wins(m: FocusState, v: View, entry: Option<Entry>)
    requires
        m.wf(),
    ensures
        ({
            let n = m.next(Event::ViewReceived(v, entry)).0;
            &&& n.view == (if v.newer(m.view) {
                v
            } else {
                m.view
            })
            &&& n.highest_epoch >= v.epoch
            &&& n.highest_epoch >= m.highest_epoch
            &&& n.peer_heard
        }),
{
}

/// A view this machine makes itself is newer than every view it has seen:
/// its epoch is one above the highest seen.
pub proof fn law_own_views_are_newest(m: FocusState, e: Event, w: View)
    requires
        m.wf(),
        m.accepts(e),
        !(e is ViewReceived),
        m.next(e).0.view != m.view,
        w.epoch <= m.highest_epoch,
    ensures
        ({
            let n = m.next(e).0;
            &&& n.view.decider == m.me
            &&& n.view.epoch == m.highest_epoch + 1
            &&& n.highest_epoch == n.view.epoch
            &&& n.view.newer(w)
        }),
{
}

/// A gate confirmation that does not answer the latest close request (a
/// late answer to an earlier one) changes nothing.
pub proof fn law_late_gate_answer_is_ignored(m: FocusState, request: u8)
    requires
        request != m.close_request,
    ensures
        m.next(Event::GateClosed(request)) == (m, Seq::<Action>::empty()),
{
}

/// Two daemons that each received the other's view end up with the same
/// view, and their modes match: both split, or one focused while the other
/// closes its gate or forwards.
pub proof fn law_exchanged_views_agree(
    a: FocusState,
    b: FocusState,
    entry_a: Option<Entry>,
    entry_b: Option<Entry>,
)
    requires
        a.wf(),
        b.wf(),
        b.me == a.me.opposite(),
    ensures
        ({
            let a2 = a.next(Event::ViewReceived(b.view, entry_b)).0;
            let b2 = b.next(Event::ViewReceived(a.view, entry_a)).0;
            &&& a2.view == b2.view
            &&& (a2.mode == Mode::Split) <==> (b2.mode == Mode::Split)
            &&& (a2.mode == Mode::Focused) <==> (b2.mode is Closing
                || b2.mode is Unfocused)
            &&& (b2.mode == Mode::Focused) <==> (a2.mode is Closing
                || a2.mode is Unfocused)
        }),
{
    law_views_are_totally_ordered(a.view, b.view, a.view);
    lemma_next_keeps_wf(a, Event::ViewReceived(b.view, entry_b));
    lemma_next_keeps_wf(b, Event::ViewReceived(a.view, entry_a));
}

/// No event changes which keys are held or where their presses went.
pub proof fn lemma_next_keeps_presses(m: FocusState, e: Event)
    ensures
        m.next(e).0.pressed == m.pressed,
{
}

/// No event changes which keys are held or where their presses went.
proof fn lemma_run_keeps_presses(m: FocusState, events: Seq<Event>)
    ensures
        m.run(events).pressed == m.pressed,
    decreases events.len(),
{
    if events.len() > 0 {
        lemma_run_keeps_presses(m, events.drop_last());
        lemma_next_keeps_presses(m.run(events.drop_last()), events.last());
    }
}

/// A key's release goes where its press went, whatever happened to the
/// focus in between.
pub proof fn law_release_follows_press(
    m: FocusState,
    id: u32,
    pressed: FocusState,
    press_route: Route,
    events: Seq<Event>,
    released: FocusState,
    release_route: Route,
)
    requires
        FocusState::pressed_into(m, id, pressed, press_route),
        FocusState::released_from(pressed.run(events), id, released, release_route),
    ensures
        release_route == press_route,
        !released.pressed.contains_key(id),
{
    lemma_run_keeps_presses(pressed, events);
}

/// Forwarding stops exactly when the machine leaves unfocused, and then
/// the `Forwarding(false)` comes before the board's gate is opened.
pub proof fn law_forwarding_stops_exactly_when_leaving_unfocused(m: FocusState, e: Event)
    requires
        m.wf(),
    ensures
        ({
            let (n, out) = m.next(e);
            &&& out.contains(Action::Forwarding(false)) <==> (m.mode == Mode::Unfocused && n.mode
                != Mode::Unfocused)
            &&& out.contains(Action::Forwarding(false)) ==> exists|i: int, j: int|
                0 <= i < j < out.len() && out[i] == Action::Forwarding(false) && out[j]
                    == Action::OpenGate
        }),
{
    let (n, out) = m.next(e);
    if m.mode == Mode::Unfocused && n.mode != Mode::Unfocused {
        law_forwarding_stops_before_the_gate_opens(m, e);
        if out.len() > 0 && out[0] == Action::Forwarding(false) {
            assert(out[1] == Action::OpenGate);
        } else {
            assert(out[1] == Action::Forwarding(false));
            assert(out[2] == Action::OpenGate);
        }
    } else {
        lemma_aligned_agrees(m, None);
        match e {
            Event::ViewReceived(v, entry) => {
                if v.newer(m.view) {
                    lemma_aligned_agrees(
                        FocusState {
                            view: v,
                            peer_heard: true,
                            highest_epoch: if v.epoch > m.highest_epoch {
                                v.epoch
                            } else {
                                m.highest_epoch
                            },
                            ..m
                        },
                        entry,
                    );
                }
            },
            _ => {},
        }
        assert(forall|i: int| 0 <= i < out.len() ==> out[i] != Action::Forwarding(false));
    }
}

/// Whether the other daemon counts as heard after `events`, having
/// counted as `heard` before them: yes once a view from it arrives, no
/// once it was reported silent, otherwise as before.
pub open spec fn heard_after(heard: bool, events: Seq<Event>) -> bool
    decreases events.len(),
{
    if events.len() == 0 {
        heard
    } else {
        match events.last() {
            Event::ViewReceived(..) => true,
            Event::PeerSilent => false,
            _ => heard_after(heard, events.drop_last()),
        }
    }
}

/// The other daemon counts as heard exactly when a view from it came
/// after its latest silence (or, for a machine that just started, after
/// the start), whatever else happened.
pub proof fn law_peer_heard_over_any_history(m: FocusState, events: Seq<Event>)
    ensures
        m.run(events).peer_heard == heard_after(m.peer_heard, events),
    decreases events.len(),
{
    if events.len() > 0 {
        law_peer_heard_over_any_history(m, events.drop_last());
    }
}

/// `b` follows `a` by one step that leaves key `id` alone: an event for
/// the machine, or the press or release of another key.
pub open spec fn step_without(a: FocusState, b: FocusState, id: u32) -> bool {
    ||| exists|e: Event| #[trigger] a.next(e).0 == b
    ||| exists|k: u32, r: Route| k != id && #[trigger] FocusState::pressed_into(a, k, b, r)
    ||| exists|k: u32, r: Route| k != id && #[trigger] FocusState::released_from(a, k, b, r)
}

/// B5: a key's repeats and its release go where its press went, whatever
/// happened in between: events for the machine, and presses and releases
/// of other keys. After the release the key is no longer held, so a
/// second release goes to this computer.
pub proof fn law_release_follows_press_among_other_keys(
    m: FocusState,
    id: u32,
    press_route: Route,
    trail: Seq<FocusState>,
    released: FocusState,
    release_route: Route,
)
    requires
        trail.len() >= 1,
        FocusState::pressed_into(m, id, trail[0], press_route),
        forall|i: int| 0 <= i < trail.len() - 1 ==> step_without(#[trigger] trail[i], trail[i + 1], id),
        FocusState::released_from(trail.last(), id, released, release_route),
    ensures
        trail.last().pressed.contains_key(id),
        trail.last().pressed[id] == press_route,
        release_route == press_route,
        !released.pressed.contains_key(id),
        forall|after: FocusState, again: Route|
            FocusState::released_from(released, id, after, again) ==> again == Route::Pass,
{
    lemma_trail_keeps_press(id, press_route, trail, trail.len() - 1);
}

proof fn lemma_trail_keeps_press(id: u32, route: Route, trail: Seq<FocusState>, k: int)
    requires
        0 <= k < trail.len(),
        trail[0].pressed.contains_key(id),
        trail[0].pressed[id] == route,
        forall|i: int| 0 <= i < trail.len() - 1 ==> step_without(#[trigger] trail[i], trail[i + 1], id),
    ensures
        trail[k].pressed.contains_key(id),
        trail[k].pressed[id] == route,
    decreases k,
{
    if k > 0 {
        lemma_trail_keeps_press(id, route, trail, k - 1);
        let a = trail[k - 1];
        let b = trail[k];
        assert(step_without(a, b, id));
        if exists|e: Event| #[trigger] a.next(e).0 == b {
            let e = choose|e: Event| #[trigger] a.next(e).0 == b;
            lemma_next_keeps_presses(a, e);
        }
    }
}

/// The pointer follows the focus across the edge at the same relative
/// height: a machine that is not focused, given a newer view that gives
/// this computer the focus with the entry position `e`, asks for its
/// pointer to enter at `e`, whatever mode it was in. Without an entry
/// position (the hotkey), a pointer that was frozen resumes where it was.
pub proof fn law_pointer_enters_where_it_left(m: FocusState, view: View, entry: Option<Entry>)
    requires
        m.wf(),
        m.mode != Mode::Focused,
        view.newer(m.view),
        view.holder == Holder::At(m.me),
    ensures
        ({
            let out = m.next(Event::ViewReceived(view, entry)).1;
            &&& entry matches Some(e) ==> out.contains(Action::Pointer(Pointer::Enter(e)))
            &&& (entry is None && m.mode != Mode::Split) ==> out.contains(
                Action::Pointer(Pointer::Resume),
            )
            &&& forall|i: int|
                0 <= i < out.len() ==> ((#[trigger] out[i]) matches Action::Pointer(
                    Pointer::Enter(e),
                ) ==> entry == Some(e))
        }),
{
    let out = m.next(Event::ViewReceived(view, entry)).1;
    let last = out.len() - 1;
    match m.mode {
        Mode::Split => {
            if entry is Some {
                assert(out[0] == Action::Pointer(Pointer::Enter(entry->0)));
            }
        },
        _ => {
            assert(out[last] == (match entry {
                Some(e) => Action::Pointer(Pointer::Enter(e)),
                None => Action::Pointer(Pointer::Resume),
            }));
        },
    }
}

} // verus!
