//! macOS input capture: what it decides for each keyboard and mouse event
//! that the Quartz event tap reports.
//!
//! Every keyboard, mouse and trackpad event is routed by the focus state
//! machine (through the hub): passed to the Mac, swallowed and forwarded
//! to the board, or swallowed and dropped. That includes what the board
//! types in for the PC: macOS reports it like the Mac's own devices, and
//! the design does not need the two told apart.
//!
//! macOS keeps modifier keys per keyboard: a Shift held on one keyboard
//! (the board's, typing for the PC) does not apply to keys typed on
//! another (experiment A2). Input passed to the Mac therefore gets the
//! modifiers passed to it from every keyboard added to its flags.
//!
//! The program runs the event tap and hands [`Capture`] each key, flags
//! and button event as plain values; it carries out the [`Delivery`] that
//! comes back. Pointer movement and scrolling, which Quartz reports in
//! fractions of a point, it routes itself with [`Guard::route_motion`]
//! and [`Capture::deliver`]. This module never records what is typed: it
//! only tracks which keys are held, to route their repeats and releases.

use std::collections::BTreeSet;

use vstd::prelude::*;

use crate::focus::{Event, FocusState, Route};
use crate::hotkey::Watch;
use crate::hub::{law_handling_forwards_no_input, Guard, Out};
use crate::input;
use crate::input::{is_key_packet, is_move_packet, key_queued, modifiers_after, one_more, release_route};
use crate::keymap_macos;
use crate::protocol::msg;

verus! {

/// Setting H6, "pass the hotkey on" (default off): the key completing the
/// hotkey is also delivered where input was going. To become a setting.
pub const PASS_HOTKEY_ON: bool = false;

/// Quartz event types of mouse buttons (CGEventTypes.h).
pub const LEFT_MOUSE_DOWN: u32 = 1;
pub const LEFT_MOUSE_UP: u32 = 2;
pub const RIGHT_MOUSE_DOWN: u32 = 3;
pub const RIGHT_MOUSE_UP: u32 = 4;
pub const OTHER_MOUSE_DOWN: u32 = 25;
pub const OTHER_MOUSE_UP: u32 = 26;

/// Caps Lock's HID usage.
pub const HID_CAPS_LOCK: u8 = 0x39;

/// What becomes of an event the tap saw.
#[derive(Clone, Copy, Debug, PartialEq, Eq, Structural)]
pub enum Delivery {
    /// Swallowed: the Mac does not get it.
    Swallow,
    /// Passed to the Mac, with these modifier flags added to its own.
    Pass(u64),
}

/// The capture's own state, as values.
pub struct CaptureState {
    pub hotkey: Watch,
    /// Keys that completed the hotkey: kept from everyone, their repeats
    /// and release too (H4).
    pub kept: Set<u32>,
    /// Modifiers and buttons forwarded and still held: the byte each
    /// forwarded key or mouse event carries.
    pub fwd_modifiers: u8,
    pub fwd_buttons: u8,
    /// Modifiers passed to the Mac and not released since, from any
    /// keyboard (HID modifier byte): added to what passes to the Mac.
    pub passed_modifiers: u8,
}

impl CaptureState {
    /// What becomes of an event routed `route`: anything not for the Mac is
    /// swallowed; what is gets the modifiers passed from every keyboard.
    pub open spec fn delivery(self, route: Route) -> Delivery {
        if route != Route::Pass {
            Delivery::Swallow
        } else if self.passed_modifiers != 0 {
            Delivery::Pass(keymap_macos::flags_of_modifiers(self.passed_modifiers))
        } else {
            Delivery::Pass(0)
        }
    }

    /// The state once a key went up or down for the other computer.
    pub open spec fn key_forwarded(self, usage: Option<u8>, down: bool) -> CaptureState {
        match usage {
            Some(u) => CaptureState {
                fwd_modifiers: modifiers_after(self.fwd_modifiers, u, down),
                ..self
            },
            None => self,
        }
    }
}

/// The button of a Quartz button event, as its bit in the MSG_MOUSE_MOVE
/// buttons byte; an "other" button by its number (2 middle, 3 back,
/// 4 forward). 0 for a button the protocol has no bit for.
pub open spec fn button_of(event_type: u32, number: i64) -> u8 {
    if event_type == LEFT_MOUSE_DOWN || event_type == LEFT_MOUSE_UP {
        0x01
    } else if event_type == RIGHT_MOUSE_DOWN || event_type == RIGHT_MOUSE_UP {
        0x02
    } else if number == 2 {
        0x04
    } else if number == 3 {
        0x08
    } else if number == 4 {
        0x10
    } else {
        0
    }
}

/// The id of a key as the tap reports it.
pub open spec fn id_of_key(keycode: u16) -> u32 {
    match keymap_macos::usage_of_keycode(keycode) {
        Some(u) => u as u32,
        None => input::OTHER_KEY | keycode as u32,
    }
}

/// Whether the key event hands the machine the hotkey: a new press (no
/// auto-repeat) of Escape with a GUI key held and nothing else pressed
/// since.
pub open spec fn hotkey_due(before: CaptureState, keycode: u16, down: bool, autorepeat: bool) -> bool {
    &&& !before.kept.contains(id_of_key(keycode))
    &&& down
    &&& !autorepeat
    &&& before.hotkey.after_press(keymap_macos::usage_of_keycode(keycode)).1
}

/// A key event the tap saw, by key code, direction and whether macOS
/// marked it an auto-repeat.
pub open spec fn key_event(
    before: CaptureState,
    g0: Guard,
    keycode: u16,
    down: bool,
    autorepeat: bool,
    after: CaptureState,
    g1: Guard,
    d: Delivery,
) -> bool {
    let usage = keymap_macos::usage_of_keycode(keycode);
    let id = id_of_key(keycode);
    if before.kept.contains(id) {
        // Kept from everyone until it goes up.
        &&& after == (if down {
            before
        } else {
            CaptureState { kept: before.kept.remove(id), ..before }
        })
        &&& g1.state() == g0.state()
        &&& g1.queued() == g0.queued()
        &&& d == Delivery::Swallow
    } else if down && autorepeat {
        // Where the press went. The other computer repeats held keys on
        // its own.
        &&& after == before
        &&& g1.state() == g0.state()
        &&& g1.queued() == g0.queued()
        &&& d == before.delivery(release_route(g0.state(), id))
    } else if down {
        let (w, completes) = before.hotkey.after_press(usage);
        let c = CaptureState { hotkey: w, ..before };
        if completes {
            // The hotkey: kept from everyone, and the focus moves.
            &&& after == CaptureState { kept: c.kept.insert(id), ..c }
            &&& g0.handled_into(Event::Hotkey, g1)
            &&& d == Delivery::Swallow
        } else {
            let route = g0.state().route_in_mode();
            &&& FocusState::pressed_into(g0.state(), id, g1.state(), route)
            &&& if route == Route::Forward {
                &&& after == c.key_forwarded(usage, true)
                &&& key_queued(g0.queued(), usage, true, after.fwd_modifiers, g1.queued())
            } else {
                after == c && g1.queued() == g0.queued()
            }
            &&& d == after.delivery(route)
        }
    } else {
        let c = CaptureState { hotkey: before.hotkey.after_release(usage), ..before };
        let route = release_route(g0.state(), id);
        &&& FocusState::released_from(g0.state(), id, g1.state(), route)
        &&& if route == Route::Forward {
            &&& after == c.key_forwarded(usage, false)
            &&& key_queued(g0.queued(), usage, false, after.fwd_modifiers, g1.queued())
        } else {
            after == c && g1.queued() == g0.queued()
        }
        &&& d == after.delivery(route)
    }
}

/// A "flags changed" event the tap saw: a modifier key, Caps Lock or fn,
/// by key code, with the event's flags.
pub open spec fn flags_event(
    before: CaptureState,
    g0: Guard,
    keycode: u16,
    flags: u64,
    after: CaptureState,
    g1: Guard,
    d: Delivery,
) -> bool {
    let usage = keymap_macos::usage_of_keycode(keycode);
    if usage is Some && input::modifier_mask(usage->0) is Some {
        let u = usage->0;
        let bit = input::modifier_mask(u)->0;
        let down = keymap_macos::is_modifier_down(flags, u);
        let c = CaptureState {
            hotkey: if down {
                before.hotkey.after_press(usage).0
            } else {
                before.hotkey.after_release(usage)
            },
            ..before
        };
        let route = if down {
            g0.state().route_in_mode()
        } else {
            release_route(g0.state(), u as u32)
        };
        &&& if down {
            FocusState::pressed_into(g0.state(), u as u32, g1.state(), route)
        } else {
            FocusState::released_from(g0.state(), u as u32, g1.state(), route)
        }
        &&& match route {
            Route::Pass => {
                &&& after == CaptureState {
                    passed_modifiers: if down {
                        c.passed_modifiers | bit
                    } else {
                        c.passed_modifiers & !bit
                    },
                    ..c
                }
                &&& g1.queued() == g0.queued()
            },
            Route::Forward => {
                &&& after == c.key_forwarded(usage, down)
                &&& key_queued(g0.queued(), usage, down, after.fwd_modifiers, g1.queued())
            },
            Route::Drop => after == c && g1.queued() == g0.queued(),
        }
        &&& d == after.delivery(route)
    } else {
        // Caps Lock (each press toggles it; the other computer toggles its
        // own) and fn: nothing held to remember.
        let route = g0.state().route_in_mode();
        &&& after == before
        &&& g1.state() == g0.state()
        &&& if route == Route::Forward && usage == Some(HID_CAPS_LOCK) {
            let q = g1.queued();
            &&& q.len() == g0.queued().len() + 2
            &&& q.drop_last().drop_last() == g0.queued()
            &&& is_key_packet(q[q.len() - 2], true, HID_CAPS_LOCK, before.fwd_modifiers)
            &&& is_key_packet(q.last(), false, HID_CAPS_LOCK, before.fwd_modifiers)
        } else {
            g1.queued() == g0.queued()
        }
        &&& d == before.delivery(route)
    }
}

/// A mouse button event the tap saw, by event type and, for an "other"
/// button, its number.
pub open spec fn button_event(
    before: CaptureState,
    g0: Guard,
    event_type: u32,
    number: i64,
    after: CaptureState,
    g1: Guard,
    d: Delivery,
) -> bool {
    let button = button_of(event_type, number);
    if button == 0 {
        &&& after == before
        &&& g1.state() == g0.state()
        &&& g1.queued() == g0.queued()
        &&& d == before.delivery(g0.state().route_in_mode())
    } else {
        let down = event_type == LEFT_MOUSE_DOWN || event_type == RIGHT_MOUSE_DOWN || event_type
            == OTHER_MOUSE_DOWN;
        let id = (input::BUTTON + button) as u32;
        let route = if down {
            g0.state().route_in_mode()
        } else {
            release_route(g0.state(), id)
        };
        &&& if down {
            FocusState::pressed_into(g0.state(), id, g1.state(), route)
        } else {
            FocusState::released_from(g0.state(), id, g1.state(), route)
        }
        &&& if route == Route::Forward {
            let buttons = if down {
                before.fwd_buttons | button
            } else {
                before.fwd_buttons & !button
            };
            &&& after == CaptureState { fwd_buttons: buttons, ..before }
            &&& one_more(g0.queued(), g1.queued())
            &&& is_move_packet(g1.queued().last(), 0, 0, buttons)
        } else {
            after == before && g1.queued() == g0.queued()
        }
        &&& d == after.delivery(route)
    }
}

/// The macOS capture: what it remembers from one tap event to the next.
pub struct Capture {
    hotkey: Watch,
    kept: BTreeSet<u32>,
    fwd_modifiers: u8,
    fwd_buttons: u8,
    passed_modifiers: u8,
}

/// Key and button ids are ordered as integers, so the sets of them behave
/// as sets.
proof fn lemma_ids_ordered()
    ensures
        vstd::laws_cmp::obeys_cmp::<u32>(),
{
}

impl Capture {
    /// The capture's state, as values.
    pub closed spec fn state(self) -> CaptureState {
        CaptureState {
            hotkey: self.hotkey,
            kept: self.kept@,
            fwd_modifiers: self.fwd_modifiers,
            fwd_buttons: self.fwd_buttons,
            passed_modifiers: self.passed_modifiers,
        }
    }

    /// A capture that has seen nothing yet.
    pub fn new() -> (c: Capture)
        ensures
            c.state().hotkey.gui_held() == 0,
            !c.state().hotkey.is_clean(),
            c.state().kept == Set::<u32>::empty(),
            c.state().fwd_modifiers == 0,
            c.state().fwd_buttons == 0,
            c.state().passed_modifiers == 0,
    {
        Capture {
            hotkey: Watch::default(),
            kept: BTreeSet::new(),
            fwd_modifiers: 0,
            fwd_buttons: 0,
            passed_modifiers: 0,
        }
    }

    /// Whether [`Capture::on_key`] would hand the machine the hotkey for
    /// this key event.
    pub fn hotkey_due(&self, keycode: u16, down: bool, autorepeat: bool) -> (r: bool)
        ensures
            r == hotkey_due(self.state(), keycode, down, autorepeat),
    {
        proof {
            lemma_ids_ordered();
        }
        let usage = keymap_macos::hid_usage(keycode);
        let id = input::key_id(usage, keycode as u32);
        !self.kept.contains(&id) && down && !autorepeat && self.hotkey.would_complete(usage)
    }

    /// Buttons forwarded and still held: the byte each forwarded mouse
    /// event carries.
    pub fn buttons(&self) -> (r: u8)
        ensures
            r == self.state().fwd_buttons,
    {
        self.fwd_buttons
    }

    /// macOS switched the tap off, and input went straight to the Mac
    /// meanwhile, releases included: forgets the modifiers passed before
    /// rather than add one that is no longer held.
    pub fn forget_passed_modifiers(&mut self)
        ensures
            final(self).state() == (CaptureState { passed_modifiers: 0, ..old(self).state() }),
    {
        self.passed_modifiers = 0;
    }

    /// Passes an event routed `route` to the Mac with the modifiers held
    /// on every keyboard, or swallows it.
    pub fn deliver(&self, route: Route) -> (d: Delivery)
        ensures
            d == self.state().delivery(route),
    {
        if route != Route::Pass {
            return Delivery::Swallow;
        }
        if self.passed_modifiers != 0 {
            Delivery::Pass(keymap_macos::modifier_flags(self.passed_modifiers))
        } else {
            Delivery::Pass(0)
        }
    }

    /// Sends a key going up or down to the other computer, with the
    /// modifiers forwarded and held. A key with no HID usage (fn) is only
    /// swallowed.
    fn forward_key(&mut self, g: &mut Guard, usage: Option<u8>, down: bool)
        ensures
            final(self).state() == old(self).state().key_forwarded(usage, down),
            final(g).state() == old(g).state(),
            key_queued(
                old(g).queued(),
                usage,
                down,
                final(self).state().fwd_modifiers,
                final(g).queued(),
            ),
    {
        let usage = match usage {
            Some(u) => u,
            None => return ,
        };
        match input::modifier_bit(usage) {
            Some(bit) => {
                if down {
                    self.fwd_modifiers = self.fwd_modifiers | bit;
                } else {
                    self.fwd_modifiers = self.fwd_modifiers & !bit;
                }
            },
            None => {},
        }
        let t = if down {
            msg::KEY_DOWN
        } else {
            msg::KEY_UP
        };
        let payload: [u8; 5] = [usage, self.fwd_modifiers, 0, 0, 0];
        g.forward(t, payload);
        proof {
            assert(payload@ =~= seq![usage, self.fwd_modifiers, 0u8, 0u8, 0u8]);
            assert(g.queued().drop_last() =~= old(g).queued());
        }
    }

    /// A key going down or up, by key code; `autorepeat` as macOS marked
    /// a key-down.
    pub fn on_key(&mut self, g: &mut Guard, keycode: u16, down: bool, autorepeat: bool) -> (d:
        Delivery)
        requires
            hotkey_due(old(self).state(), keycode, down, autorepeat) ==> old(g).state().accepts(
                Event::Hotkey,
            ),
        ensures
            key_event(
                old(self).state(),
                *old(g),
                keycode,
                down,
                autorepeat,
                final(self).state(),
                *final(g),
                d,
            ),
    {
        proof {
            lemma_ids_ordered();
        }
        let usage = keymap_macos::hid_usage(keycode);
        let id = input::key_id(usage, keycode as u32);
        if self.kept.contains(&id) {
            if !down {
                self.kept.remove(&id);
            }
            return Delivery::Swallow;
        }
        if down && autorepeat {
            let route = g.route_held(id);
            return if route == Route::Pass {
                self.deliver(route)
            } else {
                Delivery::Swallow
            };
        }
        let completes = down && self.hotkey.press(usage);
        if !down {
            self.hotkey.release(usage);
        }
        if completes && !PASS_HOTKEY_ON {
            self.kept.insert(id);
            g.handle(Event::Hotkey);
            return Delivery::Swallow;
        }
        let route = if down {
            g.route_press(id)
        } else {
            g.route_release(id)
        };
        if route == Route::Forward {
            self.forward_key(g, usage, down);
        }
        self.deliver(route)
    }

    /// A "flags changed" event: modifier keys, Caps Lock and fn, by key
    /// code, with the event's flags.
    pub fn on_flags(&mut self, g: &mut Guard, keycode: u16, flags: u64) -> (d: Delivery)
        ensures
            flags_event(
                old(self).state(),
                *old(g),
                keycode,
                flags,
                final(self).state(),
                *final(g),
                d,
            ),
    {
        let usage = keymap_macos::hid_usage(keycode);
        let modifier = match usage {
            Some(u) => match input::modifier_bit(u) {
                Some(bit) => Some((u, bit)),
                None => None,
            },
            None => None,
        };
        let (u, bit) = match modifier {
            Some(m) => m,
            None => {
                let route = g.route_motion();
                if route == Route::Forward && usage == Some(HID_CAPS_LOCK) {
                    let payload: [u8; 5] = [HID_CAPS_LOCK, self.fwd_modifiers, 0, 0, 0];
                    g.forward(msg::KEY_DOWN, payload);
                    g.forward(msg::KEY_UP, payload);
                    proof {
                        assert(payload@ =~= seq![HID_CAPS_LOCK, self.fwd_modifiers, 0u8, 0u8, 0u8]);
                        let q = g.queued();
                        assert(q.drop_last().drop_last() =~= old(g).queued());
                        assert(q[q.len() - 2] == Out::Input(msg::KEY_DOWN, payload));
                    }
                }
                return self.deliver(route);
            },
        };
        let down = keymap_macos::modifier_down(flags, u);
        let route = if down {
            self.hotkey.press(Some(u));
            g.route_press(u as u32)
        } else {
            self.hotkey.release(Some(u));
            g.route_release(u as u32)
        };
        match route {
            Route::Pass => {
                if down {
                    self.passed_modifiers = self.passed_modifiers | bit;
                } else {
                    self.passed_modifiers = self.passed_modifiers & !bit;
                }
            },
            Route::Forward => self.forward_key(g, Some(u), down),
            Route::Drop => {},
        }
        self.deliver(route)
    }

    /// A mouse button going down or up, by event type and, for an "other"
    /// button, its number.
    pub fn on_button(&mut self, g: &mut Guard, event_type: u32, number: i64) -> (d: Delivery)
        ensures
            button_event(
                old(self).state(),
                *old(g),
                event_type,
                number,
                final(self).state(),
                *final(g),
                d,
            ),
    {
        let button: u8 = if event_type == LEFT_MOUSE_DOWN || event_type == LEFT_MOUSE_UP {
            0x01
        } else if event_type == RIGHT_MOUSE_DOWN || event_type == RIGHT_MOUSE_UP {
            0x02
        } else if number == 2 {
            0x04  // middle
        } else if number == 3 {
            0x08  // back
        } else if number == 4 {
            0x10  // forward
        } else {
            0
        };
        let down = event_type == LEFT_MOUSE_DOWN || event_type == RIGHT_MOUSE_DOWN || event_type
            == OTHER_MOUSE_DOWN;
        if button == 0 {
            // A button the protocol has no bit for.
            let route = g.route_motion();
            return self.deliver(route);
        }
        let id = input::button_id(button);
        let route = if down {
            g.route_press(id)
        } else {
            g.route_release(id)
        };
        if route == Route::Forward {
            if down {
                self.fwd_buttons = self.fwd_buttons | button;
            } else {
                self.fwd_buttons = self.fwd_buttons & !button;
            }
            g.forward(msg::MOUSE_MOVE, input::mouse_payload(0, 0, self.fwd_buttons));
            assert(g.queued().drop_last() =~= old(g).queued());
        }
        self.deliver(route)
    }
}

// ── laws ────────────────────────────────────────────────────────────

/// H4, no side effects: the key that completes the hotkey, and a key kept
/// since it did (its repeats and its release), reach no computer: the Mac
/// does not get them and nothing is forwarded for them. Completing the
/// hotkey keeps the key; a kept key going down stays kept.
pub proof fn law_hotkey_keys_reach_no_computer(
    before: CaptureState,
    g0: Guard,
    keycode: u16,
    down: bool,
    autorepeat: bool,
    after: CaptureState,
    g1: Guard,
    d: Delivery,
)
    requires
        key_event(before, g0, keycode, down, autorepeat, after, g1, d),
        before.kept.contains(id_of_key(keycode)) || (down && !autorepeat
            && before.hotkey.after_press(keymap_macos::usage_of_keycode(keycode)).1),
    ensures
        d == Delivery::Swallow,
        forall|i: int|
            g0.queued().len() <= i < g1.queued().len() ==> !(#[trigger] g1.queued()[i] is Input),
        down ==> after.kept.contains(id_of_key(keycode)),
{
    if !before.kept.contains(id_of_key(keycode)) {
        law_handling_forwards_no_input(g0, Event::Hotkey, g1);
    }
}

/// S4, one place per input: a key, modifier or button event that the
/// Mac gets goes nowhere else.
pub proof fn law_what_the_mac_gets_is_not_forwarded(
    before: CaptureState,
    g0: Guard,
    keycode: u16,
    down: bool,
    autorepeat: bool,
    flags: u64,
    event_type: u32,
    number: i64,
    after: CaptureState,
    g1: Guard,
    d: Delivery,
)
    ensures
        key_event(before, g0, keycode, down, autorepeat, after, g1, d) && d is Pass
            ==> g1.queued() == g0.queued(),
        flags_event(before, g0, keycode, flags, after, g1, d) && d is Pass ==> g1.queued()
            == g0.queued(),
        button_event(before, g0, event_type, number, after, g1, d) && d is Pass ==> g1.queued()
            == g0.queued(),
{
}

/// Each Quartz button event names the button's bit of the MSG_MOUSE_MOVE
/// buttons byte (bit 0 left, bit 1 right, bit 2 middle, bits 3 and 4 the
/// side buttons, back then forward); an "other" button with a number the
/// protocol has no bit for names none. So a forwarded press sets exactly
/// that button's bit in what the other computer gets.
pub proof fn law_buttons_keep_their_bits(
    before: CaptureState,
    g0: Guard,
    event_type: u32,
    number: i64,
    after: CaptureState,
    g1: Guard,
    d: Delivery,
)
    ensures
        button_of(LEFT_MOUSE_DOWN, number) == 0x01 && button_of(LEFT_MOUSE_UP, number) == 0x01,
        button_of(RIGHT_MOUSE_DOWN, number) == 0x02 && button_of(RIGHT_MOUSE_UP, number) == 0x02,
        button_of(OTHER_MOUSE_DOWN, 2) == 0x04 && button_of(OTHER_MOUSE_UP, 2) == 0x04,
        button_of(OTHER_MOUSE_DOWN, 3) == 0x08 && button_of(OTHER_MOUSE_UP, 3) == 0x08,
        button_of(OTHER_MOUSE_DOWN, 4) == 0x10 && button_of(OTHER_MOUSE_UP, 4) == 0x10,
        !(2 <= number <= 4) ==> button_of(OTHER_MOUSE_DOWN, number) == 0 && button_of(
            OTHER_MOUSE_UP,
            number,
        ) == 0,
        (button_event(before, g0, event_type, number, after, g1, d) && event_type
            == RIGHT_MOUSE_DOWN && g0.state().route_in_mode() == Route::Forward) ==> (
        after.fwd_buttons == before.fwd_buttons | 0x02 && is_move_packet(
            g1.queued().last(),
            0,
            0,
            before.fwd_buttons | 0x02,
        ) && d == Delivery::Swallow),
{
}

} // verus!
