//! Windows input capture: what it decides for each event that the
//! low-level hooks and Raw Input report.
//!
//! Every keyboard and mouse event is routed by the focus state machine
//! (through the hub): passed to Windows, swallowed and forwarded to the
//! board, or swallowed and dropped. That includes what the board types in
//! for the Mac: Windows reports it like the PC's own devices, and the
//! design does not need the two told apart. The hooks decide what Windows
//! gets to see and forward keys, buttons and the wheel; forwarded movement
//! comes from Raw Input, which reports what the mouse counted before
//! Windows' pointer acceleration (the Mac applies its own).
//!
//! While input passes to Windows, pushing the pointer past the screen's
//! right edge by [`EDGE_RESISTANCE`] moves the focus to the Mac; so does
//! the hotkey (Win+Esc or Scroll Lock), which also brings it back.
//!
//! The program installs the hooks and hands [`Capture`] each event as
//! plain values; it carries out what comes back (let Windows have the
//! event or not, tap the mask key, look at the pointer near the edge).
//! This module never records what is typed: it only tracks which keys are
//! held, to route their repeats and releases.

use std::collections::{BTreeMap, BTreeSet};

use vstd::prelude::*;

use crate::focus::{Entry, Event, FocusState, Route};
use crate::hotkey::{lemma_release_keeps_completion, Watch};
use crate::hub::{law_handling_forwards_no_input, Guard, Out};
use crate::input;
use crate::input::{is_move_packet, key_queued, modifiers_after, one_more, release_route};
use crate::keymap;
use crate::protocol::msg;

verus! {

/// Raw mouse counts pushed against the right edge before switching.
pub const EDGE_RESISTANCE: i32 = 50;

/// Setting H6, "pass the hotkey on" (default off): the key completing the
/// hotkey is also delivered where input was going. To become a setting.
pub const PASS_HOTKEY_ON: bool = false;

/// A key-down this long after the key's previous event is a new press
/// whose release the hook never saw (it went to the lock screen, say), not
/// an auto-repeat: Windows repeats a held key within 1 s at the slowest.
pub const REPEAT_GAP_MS: u32 = 1500;

/// Virtual-key codes (WinUser.h).
pub const VK_LWIN: u32 = 0x5B;
pub const VK_RWIN: u32 = 0x5C;
/// Scroll Lock: a hotkey of its own.
pub const VK_SCROLL: u32 = 0x91;
/// An unassigned virtual-key code: tapping it counts as "another key" for
/// Windows without doing anything (see [`Capture::on_key`]).
pub const VK_MASK: u16 = 0xE8;

/// Wheel movement reported for one notch; high-resolution wheels send less.
pub const WHEEL_DELTA: i32 = 120;

/// Mouse messages of the low-level mouse hook (WinUser.h).
pub const WM_LBUTTONDOWN: u32 = 0x0201;
pub const WM_LBUTTONUP: u32 = 0x0202;
pub const WM_RBUTTONDOWN: u32 = 0x0204;
pub const WM_RBUTTONUP: u32 = 0x0205;
pub const WM_MBUTTONDOWN: u32 = 0x0207;
pub const WM_MBUTTONUP: u32 = 0x0208;
pub const WM_MOUSEWHEEL: u32 = 0x020A;
pub const WM_XBUTTONDOWN: u32 = 0x020B;
pub const WM_XBUTTONUP: u32 = 0x020C;
pub const WM_MOUSEHWHEEL: u32 = 0x020E;

// ── the rules, as values ────────────────────────────────────────────

/// The bit of a Windows key in [`CaptureState::windows_keys`]: 1 left,
/// 2 right, 0 for any other key.
pub open spec fn windows_key_mask(vk: u32) -> u8 {
    if vk == VK_LWIN {
        1
    } else if vk == VK_RWIN {
        2
    } else {
        0
    }
}

/// The button of a mouse message, as its bit in the MSG_MOUSE_MOVE
/// buttons byte; 0 if the message is no button's. The high word of an
/// X button message's data says which X button (1: back).
pub open spec fn button_of(message: u32, mouse_data: u32) -> u8 {
    if message == WM_LBUTTONDOWN || message == WM_LBUTTONUP {
        0x01
    } else if message == WM_RBUTTONDOWN || message == WM_RBUTTONUP {
        0x02
    } else if message == WM_MBUTTONDOWN || message == WM_MBUTTONUP {
        0x04
    } else if message == WM_XBUTTONDOWN || message == WM_XBUTTONUP {
        if mouse_data >> 16u32 == 1 {
            0x08
        } else {
            0x10
        }
    } else {
        0
    }
}

/// Whether a mouse message is a button going down.
pub open spec fn is_button_down(message: u32) -> bool {
    message == WM_LBUTTONDOWN || message == WM_RBUTTONDOWN || message == WM_MBUTTONDOWN
        || message == WM_XBUTTONDOWN
}

/// The wheel movement in a wheel message's data: its high word, signed.
pub open spec fn wheel_delta(mouse_data: u32) -> int {
    let hi = mouse_data >> 16u32;
    if hi >= 32768 {
        hi - 65536
    } else {
        hi as int
    }
}

/// Milliseconds from `then` to `now`, on the hook's clock, which wraps
/// around.
pub open spec fn elapsed(now: u32, then: u32) -> int {
    if now >= then {
        now - then
    } else {
        now - then + 0x1_0000_0000
    }
}

/// Whole wheel notches in `rest`, rounded toward zero.
pub open spec fn notches(rest: int) -> int {
    if rest >= 0 {
        rest / WHEEL_DELTA as int
    } else {
        -((-rest) / WHEEL_DELTA as int)
    }
}

/// A scroll packet for the other computer: vertical and horizontal
/// notches, positive up and right.
pub open spec fn is_scroll_packet(out: Out, v: int, h: int) -> bool {
    match out {
        Out::Input(t, p) => t == msg::MOUSE_SCROLL && p@ == input::i16_le(v) + input::i16_le(h)
            + seq![0u8],
        _ => false,
    }
}

/// The capture's own state, as values.
pub struct CaptureState {
    pub hotkey: Watch,
    /// Keys down as the hook saw them, with the time of their last event.
    pub held: Map<u32, u32>,
    /// Keys that completed the hotkey: kept from everyone, their repeats
    /// and release too (H4).
    pub kept: Set<u32>,
    /// Modifiers and buttons forwarded and still held: the byte each
    /// forwarded key or mouse event carries.
    pub fwd_modifiers: u8,
    pub fwd_buttons: u8,
    /// Windows keys that Windows saw go down and not yet up (bit 0 left,
    /// bit 1 right), and whether the mask key was tapped since.
    pub windows_keys: u8,
    pub masked: bool,
    /// The hooks' latest decision about pointer movement.
    pub motion_route: Route,
    /// Movement pushed against the right edge so far.
    pub edge_push: i32,
    /// Wheel movement not sent yet, vertical and horizontal.
    pub wheel: i32,
    pub hwheel: i32,
}

impl CaptureState {
    /// What is left over is less than what it takes: wheel rests under a
    /// notch either way, an edge push under the resistance.
    pub open spec fn wf(self) -> bool {
        &&& -WHEEL_DELTA < self.wheel < WHEEL_DELTA
        &&& -WHEEL_DELTA < self.hwheel < WHEEL_DELTA
        &&& 0 <= self.edge_push < EDGE_RESISTANCE
    }

    /// A key press Windows does not get: the mask key is due if Windows
    /// holds a Windows key and has not been given one since it went down.
    pub open spec fn tap_due(self) -> bool {
        self.windows_keys != 0 && !self.masked
    }

    /// The state once a withheld press was accounted for.
    pub open spec fn withheld(self) -> CaptureState {
        CaptureState { masked: self.masked || self.tap_due(), ..self }
    }

    /// The state once a key went up or down for the other computer.
    pub open spec fn key_forwarded(self, usage: Option<u8>, down: bool) -> CaptureState {
        match usage {
            Some(u) => CaptureState {
                fwd_modifiers: modifiers_after(self.fwd_modifiers, u, down),
                ..self
            },
            None => self,
        }
    }
}

/// A key release that the hook saw: `pass` says whether Windows gets it.
#[verifier::opaque]
pub open spec fn key_released(
    before: CaptureState,
    g0: Guard,
    id: u32,
    usage: Option<u8>,
    vk: u32,
    after: CaptureState,
    g1: Guard,
    pass: bool,
) -> bool {
    let c = CaptureState { hotkey: before.hotkey.after_release(usage), ..before };
    if before.kept.contains(id) {
        &&& after == CaptureState { kept: c.kept.remove(id), ..c }
        &&& g1.state() == g0.state()
        &&& g1.queued() == g0.queued()
        &&& !pass
    } else {
        let route = release_route(g0.state(), id);
        &&& pass == (route == Route::Pass)
        &&& FocusState::released_from(g0.state(), id, g1.state(), route)
        &&& match route {
            Route::Pass => {
                &&& after == CaptureState {
                    windows_keys: c.windows_keys & !windows_key_mask(vk),
                    ..c
                }
                &&& g1.queued() == g0.queued()
            },
            Route::Forward => {
                &&& after == c.key_forwarded(usage, false)
                &&& key_queued(g0.queued(), usage, false, after.fwd_modifiers, g1.queued())
            },
            Route::Drop => after == c && g1.queued() == g0.queued(),
        }
    }
}

/// A new key press that the hook saw: `pass` says whether Windows gets it,
/// `mask` whether to tap the mask key first.
#[verifier::opaque]
pub open spec fn key_pressed(
    before: CaptureState,
    g0: Guard,
    id: u32,
    usage: Option<u8>,
    vk: u32,
    after: CaptureState,
    g1: Guard,
    pass: bool,
    mask: bool,
) -> bool {
    let (w, gui_escape) = before.hotkey.after_press(usage);
    let c = CaptureState { hotkey: w, ..before };
    if gui_escape || vk == VK_SCROLL {
        // The hotkey: kept from everyone, and the focus moves.
        &&& !pass
        &&& mask == c.tap_due()
        &&& after == CaptureState { kept: c.kept.insert(id), ..c.withheld() }
        &&& g0.handled_into(Event::Hotkey, g1)
    } else {
        let route = g0.state().route_in_mode();
        &&& pass == (route == Route::Pass)
        &&& FocusState::pressed_into(g0.state(), id, g1.state(), route)
        &&& match route {
            Route::Pass => {
                let bit = windows_key_mask(vk);
                &&& !mask
                &&& g1.queued() == g0.queued()
                &&& after == (if bit != 0 {
                    CaptureState {
                        windows_keys: c.windows_keys | bit,
                        masked: c.windows_keys != 0 && c.masked,
                        ..c
                    }
                } else {
                    c
                })
            },
            Route::Forward => {
                let f = c.key_forwarded(usage, true);
                &&& mask == f.tap_due()
                &&& after == f.withheld()
                &&& key_queued(g0.queued(), usage, true, f.fwd_modifiers, g1.queued())
            },
            Route::Drop => {
                &&& mask == c.tap_due()
                &&& after == c.withheld()
                &&& g1.queued() == g0.queued()
            },
        }
    }
}

/// A release of the key that the hook did not see, then its new press.
pub open spec fn released_then_pressed(
    before: CaptureState,
    g0: Guard,
    id: u32,
    usage: Option<u8>,
    vk: u32,
    after: CaptureState,
    g1: Guard,
    pass: bool,
    mask: bool,
) -> bool {
    exists|mid: CaptureState, gm: Guard, p: bool|
        key_released(before, g0, id, usage, vk, mid, gm, p) && key_pressed(
            mid,
            gm,
            id,
            usage,
            vk,
            after,
            g1,
            pass,
            mask,
        )
}

/// The id of a key as the keyboard hook reports it.
pub open spec fn id_of_key(vk: u32, scan: u32, extended: bool) -> u32 {
    match keymap::usage_of_key(vk, scan, extended) {
        Some(u) => u as u32,
        None => input::OTHER_KEY | vk,
    }
}

/// Whether the key event hands the machine the hotkey: a new press (no
/// auto-repeat) of Escape with a GUI key held and nothing else pressed
/// since, or of Scroll Lock.
pub open spec fn hotkey_due(
    before: CaptureState,
    vk: u32,
    scan: u32,
    extended: bool,
    down: bool,
    time: u32,
) -> bool {
    let id = id_of_key(vk, scan, extended);
    &&& down
    &&& !(before.held.contains_key(id) && elapsed(time, before.held[id]) < REPEAT_GAP_MS)
    &&& (before.hotkey.after_press(keymap::usage_of_key(vk, scan, extended)).1 || vk
        == VK_SCROLL)
}

/// Whether movement `dx` at column `x` completes a push past the right
/// edge (the last column being `right`).
pub open spec fn edge_switch_due(before: CaptureState, dx: int, x: int, right: int) -> bool {
    x >= right && dx > 0 && before.edge_push + dx >= EDGE_RESISTANCE
}

/// A key event that the keyboard hook saw, by virtual-key code, scan code,
/// extended flag, direction and time: `pass` says whether Windows gets it,
/// `mask` whether to tap the mask key first.
pub open spec fn key_event(
    before: CaptureState,
    g0: Guard,
    vk: u32,
    scan: u32,
    extended: bool,
    down: bool,
    time: u32,
    after: CaptureState,
    g1: Guard,
    pass: bool,
    mask: bool,
) -> bool {
    let usage = keymap::usage_of_key(vk, scan, extended);
    let id = id_of_key(vk, scan, extended);
    if !down {
        &&& !mask
        &&& key_released(
            CaptureState { held: before.held.remove(id), ..before },
            g0,
            id,
            usage,
            vk,
            after,
            g1,
            pass,
        )
    } else {
        let c = CaptureState { held: before.held.insert(id, time), ..before };
        if before.held.contains_key(id) && elapsed(time, before.held[id]) < REPEAT_GAP_MS {
            // An auto-repeat: where the press went. The other computer
            // repeats held keys on its own.
            &&& after == c
            &&& g1.state() == g0.state()
            &&& g1.queued() == g0.queued()
            &&& !mask
            &&& pass == (!before.kept.contains(id) && release_route(g0.state(), id)
                == Route::Pass)
        } else if before.held.contains_key(id) {
            // Its release never reached the hook: that first, then the press.
            released_then_pressed(c, g0, id, usage, vk, after, g1, pass, mask)
        } else {
            key_pressed(c, g0, id, usage, vk, after, g1, pass, mask)
        }
    }
}

/// Wheel movement for the other computer: added to what was left over on
/// that axis, whole notches sent (both positive = up / right), the rest kept.
pub open spec fn wheel_turned(
    before: CaptureState,
    q0: Seq<Out>,
    horizontal: bool,
    delta: int,
    after: CaptureState,
    q1: Seq<Out>,
) -> bool {
    let rest = (if horizontal {
        before.hwheel
    } else {
        before.wheel
    }) + delta;
    let n = notches(rest);
    let left = rest - n * WHEEL_DELTA;
    &&& after == (if horizontal {
        CaptureState { hwheel: left as i32, ..before }
    } else {
        CaptureState { wheel: left as i32, ..before }
    })
    &&& if n != 0 {
        one_more(q0, q1) && is_scroll_packet(
            q1.last(),
            if horizontal {
                0
            } else {
                n
            },
            if horizontal {
                n
            } else {
                0
            },
        )
    } else {
        q1 == q0
    }
}

/// An event that the mouse hook saw: `pass` says whether Windows gets it.
pub open spec fn mouse_event(
    before: CaptureState,
    g0: Guard,
    message: u32,
    mouse_data: u32,
    after: CaptureState,
    g1: Guard,
    pass: bool,
) -> bool {
    let button = button_of(message, mouse_data);
    if button != 0 {
        let down = is_button_down(message);
        let id = input::BUTTON + button;
        let route = if down {
            g0.state().route_in_mode()
        } else {
            release_route(g0.state(), id as u32)
        };
        &&& pass == (route == Route::Pass)
        &&& if down {
            FocusState::pressed_into(g0.state(), id as u32, g1.state(), route)
        } else {
            FocusState::released_from(g0.state(), id as u32, g1.state(), route)
        }
        &&& if route == Route::Forward {
            let buttons = if down {
                before.fwd_buttons | button
            } else {
                before.fwd_buttons & !button
            };
            &&& after == CaptureState { fwd_buttons: buttons, ..before }
            &&& one_more(g0.queued(), g1.queued())
            &&& is_move_packet(g1.queued().last(), 0, 0, buttons)
        } else {
            after == before && g1.queued() == g0.queued()
        }
    } else {
        let route = g0.state().route_in_mode();
        &&& pass == (route == Route::Pass)
        &&& g1.state() == g0.state()
        &&& if message == WM_MOUSEWHEEL || message == WM_MOUSEHWHEEL {
            if route == Route::Forward {
                wheel_turned(
                    before,
                    g0.queued(),
                    message == WM_MOUSEHWHEEL,
                    wheel_delta(mouse_data),
                    after,
                    g1.queued(),
                )
            } else {
                after == before && g1.queued() == g0.queued()
            }
        } else {
            after == CaptureState { motion_route: route, ..before } && g1.queued() == g0.queued()
        }
    }
}

/// Movement that Raw Input reported: `watch` says whether to look at the
/// pointer and the edge ([`Capture::watch_edge`]).
pub open spec fn raw_moved(
    before: CaptureState,
    g0: Guard,
    dx: int,
    dy: int,
    after: CaptureState,
    g1: Guard,
    watch: bool,
) -> bool {
    &&& g1.state() == g0.state()
    &&& if dx == 0 && dy == 0 {
        after == before && g1.queued() == g0.queued() && !watch
    } else {
        let route = g0.state().route_in_mode();
        &&& watch == (route == Route::Pass)
        &&& if route == Route::Pass {
            after == before && g1.queued() == g0.queued()
        } else if route == Route::Forward && before.motion_route == Route::Forward {
            // Only while the hooks swallow movement too: Raw Input can lag
            // behind the hooks, and movement Windows was given must not be
            // sent to the Mac as well.
            &&& after == CaptureState { edge_push: 0, ..before }
            &&& one_more(g0.queued(), g1.queued())
            &&& is_move_packet(g1.queued().last(), dx, dy, before.fwd_buttons)
        } else {
            after == CaptureState { edge_push: 0, ..before } && g1.queued() == g0.queued()
        }
    }
}

/// Pushing past the right edge: movement `dx` with the pointer at column
/// `x` of a screen whose last column is `right`. Pushing on at the edge
/// adds up; once it reaches [`EDGE_RESISTANCE`] the focus moves to the
/// other computer, entering at `entry`. Moving left, or away from the
/// edge, starts over.
pub open spec fn edge_watched(
    before: CaptureState,
    g0: Guard,
    dx: int,
    x: int,
    right: int,
    entry: Entry,
    after: CaptureState,
    g1: Guard,
) -> bool {
    if x >= right && dx > 0 && before.edge_push + dx >= EDGE_RESISTANCE {
        &&& after == CaptureState { edge_push: 0, ..before }
        &&& g0.handled_into(Event::EdgePushed(entry), g1)
    } else {
        &&& after == (if x >= right && dx > 0 {
            CaptureState { edge_push: (before.edge_push + dx) as i32, ..before }
        } else if dx < 0 || x < right {
            CaptureState { edge_push: 0, ..before }
        } else {
            before
        })
        &&& g1.state() == g0.state()
        &&& g1.queued() == g0.queued()
    }
}

// ── the capture ─────────────────────────────────────────────────────

/// The Windows capture: what it remembers from one hook event to the next.
pub struct Capture {
    hotkey: Watch,
    held: BTreeMap<u32, u32>,
    kept: BTreeSet<u32>,
    fwd_modifiers: u8,
    fwd_buttons: u8,
    windows_keys: u8,
    masked: bool,
    motion_route: Route,
    edge_push: i32,
    wheel: i32,
    hwheel: i32,
}

/// Key and button ids are ordered as integers, so the sets and maps of
/// them behave as sets and maps.
proof fn lemma_ids_ordered()
    ensures
        vstd::laws_cmp::obeys_cmp::<u32>(),
{
}

fn windows_key_bit(vk: u32) -> (r: u8)
    ensures
        r == windows_key_mask(vk),
{
    if vk == VK_LWIN {
        1
    } else if vk == VK_RWIN {
        2
    } else {
        0
    }
}

impl Capture {
    /// The capture's state, as values.
    pub closed spec fn state(self) -> CaptureState {
        CaptureState {
            hotkey: self.hotkey,
            held: self.held@,
            kept: self.kept@,
            fwd_modifiers: self.fwd_modifiers,
            fwd_buttons: self.fwd_buttons,
            windows_keys: self.windows_keys,
            masked: self.masked,
            motion_route: self.motion_route,
            edge_push: self.edge_push,
            wheel: self.wheel,
            hwheel: self.hwheel,
        }
    }

    /// A capture that has seen nothing yet.
    pub fn new() -> (c: Capture)
        ensures
            c.state().hotkey.gui_held() == 0,
            !c.state().hotkey.is_clean(),
            c.state().held == Map::<u32, u32>::empty(),
            c.state().kept == Set::<u32>::empty(),
            c.state().fwd_modifiers == 0,
            c.state().fwd_buttons == 0,
            c.state().windows_keys == 0,
            !c.state().masked,
            c.state().motion_route == Route::Pass,
            c.state().edge_push == 0,
            c.state().wheel == 0,
            c.state().hwheel == 0,
            c.state().wf(),
    {
        Capture {
            hotkey: Watch::default(),
            held: BTreeMap::new(),
            kept: BTreeSet::new(),
            fwd_modifiers: 0,
            fwd_buttons: 0,
            windows_keys: 0,
            masked: false,
            motion_route: Route::Pass,
            edge_push: 0,
            wheel: 0,
            hwheel: 0,
        }
    }

    /// Movement pushed against the right edge so far.
    pub fn edge_push(&self) -> (r: i32)
        ensures
            r == self.state().edge_push,
    {
        self.edge_push
    }

    /// Whether [`Capture::on_key`] would hand the machine the hotkey for
    /// this key event.
    pub fn hotkey_due(&self, vk: u32, scan: u32, extended: bool, down: bool, time: u32) -> (r:
        bool)
        ensures
            r == hotkey_due(self.state(), vk, scan, extended, down, time),
    {
        proof {
            lemma_ids_ordered();
        }
        if !down {
            return false;
        }
        let usage = keymap::hid_usage(vk, scan, extended);
        let id = input::key_id(usage, vk);
        let repeat = match self.held.get(&id) {
            Some(last) => time.wrapping_sub(*last) < REPEAT_GAP_MS,
            None => false,
        };
        !repeat && (self.hotkey.would_complete(usage) || vk == VK_SCROLL)
    }

    /// Whether [`Capture::watch_edge`] would move the focus for movement
    /// `dx` at column `x`, `right` being the screen's last column.
    pub fn edge_switch_due(&self, dx: i32, x: i32, right: i32) -> (r: bool)
        requires
            self.state().wf(),
        ensures
            r == edge_switch_due(self.state(), dx as int, x as int, right as int),
    {
        x >= right && dx > 0 && dx >= EDGE_RESISTANCE - self.edge_push
    }

    /// A key press Windows does not get. Windows opens the Start menu when
    /// a Windows key goes up with no other key since it went down, so if
    /// it holds one, it must see some other key first: returns true to tap
    /// the mask key (once per Windows-key press).
    fn withheld(&mut self) -> (tap: bool)
        requires
            old(self).state().wf(),
        ensures
            final(self).state().wf(),
            tap == old(self).state().tap_due(),
            final(self).state() == old(self).state().withheld(),
    {
        let tap = self.windows_keys != 0 && !self.masked;
        self.masked = self.masked || tap;
        tap
    }

    /// Sends a key going up or down to the other computer, with the
    /// modifiers forwarded and held. A key with no HID usage is only
    /// swallowed.
    fn forward_key(&mut self, g: &mut Guard, usage: Option<u8>, down: bool)
        requires
            old(self).state().wf(),
        ensures
            final(self).state().wf(),
            final(self).state() == old(self).state().key_forwarded(usage, down),
            final(g).state() == old(g).state(),
            key_queued(
                old(g).queued(),
                usage,
                down,
                final(self).state().fwd_modifiers,
                final(g).queued(),
            ),
    {
        let usage = match usage {
            Some(u) => u,
            None => return ,
        };
        match input::modifier_bit(usage) {
            Some(bit) => {
                if down {
                    self.fwd_modifiers = self.fwd_modifiers | bit;
                } else {
                    self.fwd_modifiers = self.fwd_modifiers & !bit;
                }
            },
            None => {},
        }
        let t = if down {
            msg::KEY_DOWN
        } else {
            msg::KEY_UP
        };
        let payload: [u8; 5] = [usage, self.fwd_modifiers, 0, 0, 0];
        g.forward(t, payload);
        proof {
            assert(payload@ =~= seq![usage, self.fwd_modifiers, 0u8, 0u8, 0u8]);
            assert(g.queued().drop_last() =~= old(g).queued());
            assert(g.queued().last() == Out::Input(t, payload));
        }
    }

    /// A new key press. Returns whether Windows gets it, and whether to
    /// tap the mask key first.
    pub fn press(&mut self, g: &mut Guard, id: u32, usage: Option<u8>, vk: u32) -> (r: (
        bool,
        bool,
    ))
        requires
            old(self).state().wf(),
            old(self).state().hotkey.after_press(usage).1 || vk == VK_SCROLL ==> old(
                g,
            ).state().accepts(Event::Hotkey),
        ensures
            final(self).state().wf(),
            key_pressed(
                old(self).state(),
                *old(g),
                id,
                usage,
                vk,
                final(self).state(),
                *final(g),
                r.0,
                r.1,
            ),
    {
        proof {
            lemma_ids_ordered();
        }
        proof {
            reveal(key_pressed);
        }
        let gui_escape = self.hotkey.press(usage);
        let completes = gui_escape || vk == VK_SCROLL;
        if completes && !PASS_HOTKEY_ON {
            self.kept.insert(id);
            let mask = self.withheld();
            g.handle(Event::Hotkey);
            return (false, mask);
        }
        let mut mask = false;
        let route = g.route_press(id);
        match route {
            Route::Pass => {
                let bit = windows_key_bit(vk);
                if bit != 0 {
                    if self.windows_keys == 0 {
                        self.masked = false;
                    }
                    self.windows_keys = self.windows_keys | bit;
                }
            },
            Route::Forward => {
                self.forward_key(g, usage, true);
                mask = self.withheld();
            },
            Route::Drop => {
                mask = self.withheld();
            },
        }
        (route == Route::Pass, mask)
    }

    /// A key release. Returns whether Windows gets it.
    pub fn release(&mut self, g: &mut Guard, id: u32, usage: Option<u8>, vk: u32) -> (pass: bool)
        requires
            old(self).state().wf(),
        ensures
            final(self).state().wf(),
            final(g).state().same_focus(old(g).state()),
            final(self).state().hotkey == old(self).state().hotkey.after_release(usage),
            key_released(
                old(self).state(),
                *old(g),
                id,
                usage,
                vk,
                final(self).state(),
                *final(g),
                pass,
            ),
    {
        proof {
            lemma_ids_ordered();
        }
        proof {
            reveal(key_released);
        }
        self.hotkey.release(usage);
        if self.kept.remove(&id) {
            return false;
        }
        assert(self.kept@ =~= old(self).kept@);
        let route = g.route_release(id);
        match route {
            Route::Pass => {
                self.windows_keys = self.windows_keys & !windows_key_bit(vk);
            },
            Route::Forward => self.forward_key(g, usage, false),
            Route::Drop => {},
        }
        route == Route::Pass
    }

    /// Keyboard hook: a key event by virtual-key code, scan code, extended
    /// flag, direction and time (ms). Returns whether Windows gets it, and
    /// whether to tap the mask key first.
    pub fn on_key(
        &mut self,
        g: &mut Guard,
        vk: u32,
        scan: u32,
        extended: bool,
        down: bool,
        time: u32,
    ) -> (r: (bool, bool))
        requires
            old(self).state().wf(),
            hotkey_due(old(self).state(), vk, scan, extended, down, time) ==> old(
                g,
            ).state().accepts(Event::Hotkey),
        ensures
            final(self).state().wf(),
            key_event(
                old(self).state(),
                *old(g),
                vk,
                scan,
                extended,
                down,
                time,
                final(self).state(),
                *final(g),
                r.0,
                r.1,
            ),
    {
        proof {
            lemma_ids_ordered();
        }
        let usage = keymap::hid_usage(vk, scan, extended);
        let id = input::key_id(usage, vk);
        if !down {
            self.held.remove(&id);
            assert(self.state() == CaptureState { held: old(self).state().held.remove(id), ..old(self).state() });
            let pass = self.release(g, id, usage, vk);
            return (pass, false);
        }
        match self.held.insert(id, time) {
            Some(last) => {
                if time.wrapping_sub(last) < REPEAT_GAP_MS {
                    let pass = !self.kept.contains(&id) && g.route_held(id) == Route::Pass;
                    assert(self.state() == CaptureState { held: old(self).state().held.insert(id, time), ..old(self).state() });
                            return (pass, false);
                }
                let ghost c = self.state();
                let ghost g0 = *g;
                let p = self.release(g, id, usage, vk);
                proof {
                    lemma_release_keeps_completion(c.hotkey, usage);
                }
                let ghost mid = self.state();
                let ghost gm = *g;
                let r = self.press(g, id, usage, vk);
                proof {
                    let before = old(self).state();
                    assert(c == CaptureState { held: before.held.insert(id, time), ..before });
                    assert(released_then_pressed(c, g0, id, usage, vk, self.state(), *g, r.0, r.1));
                }
                r
            },
            None => self.press(g, id, usage, vk),
        }
    }

    /// Wheel movement for the other computer, `delta` in the hook's units.
    fn forward_wheel(&mut self, g: &mut Guard, horizontal: bool, delta: i32)
        requires
            old(self).state().wf(),
            -32768 <= delta <= 32767,
        ensures
            final(self).state().wf(),
            final(g).state() == old(g).state(),
            wheel_turned(
                old(self).state(),
                old(g).queued(),
                horizontal,
                delta as int,
                final(self).state(),
                final(g).queued(),
            ),
    {
        let rest: i32 = (if horizontal {
            self.hwheel
        } else {
            self.wheel
        }) + delta;
        let size: u32 = if rest >= 0 {
            rest as u32
        } else {
            (-rest) as u32
        };
        let whole: i32 = (size / 120) as i32;
        let n: i32 = if rest >= 0 {
            whole
        } else {
            -whole
        };
        let left: i32 = rest - n * WHEEL_DELTA;
        if horizontal {
            self.hwheel = left;
        } else {
            self.wheel = left;
        }
        if n != 0 {
            // Both positive = up / right, as in MSG_MOUSE_SCROLL.
            let (v, h): (i32, i32) = if horizontal {
                (0, n)
            } else {
                (n, 0)
            };
            let (v0, v1) = input::i16_bytes(v);
            let (h0, h1) = input::i16_bytes(h);
            let payload: [u8; 5] = [v0, v1, h0, h1, 0];
            g.forward(msg::MOUSE_SCROLL, payload);
            proof {
                assert(payload@ =~= input::i16_le(v as int) + input::i16_le(h as int) + seq![0u8]);
                assert(g.queued().drop_last() =~= old(g).queued());
            }
        }
    }

    /// Low-level mouse hook: a mouse message and its data. Returns whether
    /// Windows gets the event.
    pub fn on_mouse_hook(&mut self, g: &mut Guard, message: u32, mouse_data: u32) -> (pass: bool)
        requires
            old(self).state().wf(),
        ensures
            final(self).state().wf(),
            mouse_event(
                old(self).state(),
                *old(g),
                message,
                mouse_data,
                final(self).state(),
                *final(g),
                pass,
            ),
    {
        let button: u8 = if message == WM_LBUTTONDOWN || message == WM_LBUTTONUP {
            0x01
        } else if message == WM_RBUTTONDOWN || message == WM_RBUTTONUP {
            0x02
        } else if message == WM_MBUTTONDOWN || message == WM_MBUTTONUP {
            0x04
        } else if message == WM_XBUTTONDOWN || message == WM_XBUTTONUP {
            if mouse_data >> 16u32 == 1 {
                0x08
            } else {
                0x10
            }
        } else {
            0
        };
        if button != 0 {
            let down = message == WM_LBUTTONDOWN || message == WM_RBUTTONDOWN || message
                == WM_MBUTTONDOWN || message == WM_XBUTTONDOWN;
            let id = input::button_id(button);
            let route = if down {
                g.route_press(id)
            } else {
                g.route_release(id)
            };
            if route == Route::Forward {
                if down {
                    self.fwd_buttons = self.fwd_buttons | button;
                } else {
                    self.fwd_buttons = self.fwd_buttons & !button;
                }
                g.forward(msg::MOUSE_MOVE, input::mouse_payload(0, 0, self.fwd_buttons));
                assert(g.queued().drop_last() =~= old(g).queued());
            }
            return route == Route::Pass;
        }
        let route = g.route_motion();
        if message == WM_MOUSEWHEEL || message == WM_MOUSEHWHEEL {
            if route == Route::Forward {
                let hi: u32 = mouse_data >> 16u32;
                assert(mouse_data >> 16u32 <= 0xFFFF) by (bit_vector);
                let delta: i32 = if hi >= 32768 {
                    hi as i32 - 65536
                } else {
                    hi as i32
                };
                self.forward_wheel(g, message == WM_MOUSEHWHEEL, delta);
            }
        } else {
            self.motion_route = route;
        }
        route == Route::Pass
    }

    /// Raw Input: what the mouse counted, before acceleration. Returns
    /// whether to look at the pointer and the edge ([`Capture::watch_edge`]).
    pub fn on_raw_motion(&mut self, g: &mut Guard, dx: i32, dy: i32) -> (watch: bool)
        requires
            old(self).state().wf(),
        ensures
            final(self).state().wf(),
            raw_moved(
                old(self).state(),
                *old(g),
                dx as int,
                dy as int,
                final(self).state(),
                *final(g),
                watch,
            ),
    {
        if dx == 0 && dy == 0 {
            return false;
        }
        let route = g.route_motion();
        if route == Route::Pass {
            return true;
        }
        if route == Route::Forward && self.motion_route == Route::Forward {
            g.forward(msg::MOUSE_MOVE, input::mouse_payload(dx, dy, self.fwd_buttons));
            assert(g.queued().drop_last() =~= old(g).queued());
        }
        self.edge_push = 0;
        false
    }

    /// Pushing past the right edge, by any device (the Mac's too, typed in
    /// by the board), moves the focus to the Mac: movement `dx` with the
    /// pointer at column `x`, `right` the screen's last column, `entry`
    /// where the pointer would enter the Mac.
    pub fn watch_edge(&mut self, g: &mut Guard, dx: i32, x: i32, right: i32, entry: Entry)
        requires
            old(self).state().wf(),
            x >= right && dx > 0 ==> old(self).state().edge_push + dx <= i32::MAX,
            edge_switch_due(old(self).state(), dx as int, x as int, right as int) ==> old(
                g,
            ).state().accepts(Event::EdgePushed(entry)),
        ensures
            final(self).state().wf(),
            edge_watched(
                old(self).state(),
                *old(g),
                dx as int,
                x as int,
                right as int,
                entry,
                final(self).state(),
                *final(g),
            ),
    {
        if x >= right && dx > 0 {
            self.edge_push = self.edge_push + dx;
            if self.edge_push >= EDGE_RESISTANCE {
                self.edge_push = 0;
                g.handle(Event::EdgePushed(entry));
            }
        } else if dx < 0 || x < right {
            self.edge_push = 0;
        }
    }
}

// ── laws ────────────────────────────────────────────────────────────

/// H4, no side effects: the key that completes the hotkey reaches no
/// computer. Windows does not get it, nothing is forwarded for it (all
/// that is queued is the machine's own work for the hotkey), and the key
/// is kept from then on.
pub proof fn law_hotkey_key_reaches_no_computer(
    before: CaptureState,
    g0: Guard,
    id: u32,
    usage: Option<u8>,
    vk: u32,
    after: CaptureState,
    g1: Guard,
    pass: bool,
    mask: bool,
)
    requires
        key_pressed(before, g0, id, usage, vk, after, g1, pass, mask),
        before.hotkey.after_press(usage).1 || vk == VK_SCROLL,
    ensures
        !pass,
        after.kept.contains(id),
        forall|i: int|
            g0.queued().len() <= i < g1.queued().len() ==> !(#[trigger] g1.queued()[i] is Input),
{
    reveal(key_pressed);
    law_handling_forwards_no_input(g0, Event::Hotkey, g1);
}

/// H4: a key kept since it completed the hotkey stays kept: its repeats
/// and its release reach no computer and change nothing there.
pub proof fn law_kept_key_reaches_no_computer(
    before: CaptureState,
    g0: Guard,
    vk: u32,
    scan: u32,
    extended: bool,
    down: bool,
    time: u32,
    after: CaptureState,
    g1: Guard,
    pass: bool,
    mask: bool,
)
    requires
        key_event(before, g0, vk, scan, extended, down, time, after, g1, pass, mask),
        before.kept.contains(id_of_key(vk, scan, extended)),
        down ==> before.held.contains_key(id_of_key(vk, scan, extended)) && elapsed(
            time,
            before.held[id_of_key(vk, scan, extended)],
        ) < REPEAT_GAP_MS,
    ensures
        !pass,
        !mask,
        g1.state() == g0.state(),
        g1.queued() == g0.queued(),
{
    reveal(key_released);
}

/// S4, one place per input: a key that Windows gets goes nowhere else.
pub proof fn law_keys_windows_gets_are_not_forwarded(
    before: CaptureState,
    g0: Guard,
    id: u32,
    usage: Option<u8>,
    vk: u32,
    after: CaptureState,
    g1: Guard,
    pass: bool,
    mask: bool,
)
    ensures
        key_pressed(before, g0, id, usage, vk, after, g1, pass, mask) && pass ==> g1.queued()
            == g0.queued(),
        key_released(before, g0, id, usage, vk, after, g1, pass) && pass ==> g1.queued()
            == g0.queued(),
{
    reveal(key_pressed);
    reveal(key_released);
}

/// S4, one place per input: a mouse event that Windows gets goes nowhere
/// else, and neither does movement while the pointer is Windows'.
pub proof fn law_mouse_windows_gets_is_not_forwarded(
    before: CaptureState,
    g0: Guard,
    message: u32,
    mouse_data: u32,
    dx: int,
    dy: int,
    after: CaptureState,
    g1: Guard,
    pass: bool,
)
    ensures
        mouse_event(before, g0, message, mouse_data, after, g1, pass) && pass ==> g1.queued()
            == g0.queued(),
        raw_moved(before, g0, dx, dy, after, g1, pass) && pass ==> g1.queued() == g0.queued(),
{
}

/// H4: the mask key is tapped only while Windows holds a Windows key, and
/// at most once for each press of one: a tap marks it masked, and only a
/// new press of a Windows key, with none held, clears that.
pub proof fn law_mask_key_tapped_once(
    before: CaptureState,
    g0: Guard,
    id: u32,
    usage: Option<u8>,
    vk: u32,
    after: CaptureState,
    g1: Guard,
    pass: bool,
    mask: bool,
)
    requires
        key_pressed(before, g0, id, usage, vk, after, g1, pass, mask),
    ensures
        mask ==> before.windows_keys != 0 && !before.masked && after.masked,
        before.masked && !after.masked ==> before.windows_keys == 0 && after.windows_keys != 0,
{
    reveal(key_pressed);
    let bit = windows_key_mask(vk);
    let held = before.windows_keys;
    assert(bit != 0 ==> held | bit != 0) by (bit_vector);
}

/// Wheel movement is never lost: what was left over plus the movement is
/// what is left over now plus the notches sent, and what is left over is
/// less than a notch.
pub proof fn law_wheel_movement_adds_up(
    before: CaptureState,
    q0: Seq<Out>,
    horizontal: bool,
    delta: int,
    after: CaptureState,
    q1: Seq<Out>,
)
    requires
        before.wf(),
        -32768 <= delta <= 32767,
        wheel_turned(before, q0, horizontal, delta, after, q1),
    ensures
        ({
            let rest0 = if horizontal {
                before.hwheel
            } else {
                before.wheel
            };
            let rest1 = if horizontal {
                after.hwheel
            } else {
                after.wheel
            };
            &&& rest0 + delta == rest1 + WHEEL_DELTA * notches(rest0 + delta)
            &&& -WHEEL_DELTA < rest1 < WHEEL_DELTA
            &&& (q1 == q0) == (notches(rest0 + delta) == 0)
        }),
{
}

/// Each button's messages name its bit of the MSG_MOUSE_MOVE buttons
/// byte (bit 0 left, bit 1 right, bit 2 middle, bits 3 and 4 the side
/// buttons, back then forward), and no other message names a button. So a
/// forwarded press sets exactly that button's bit in what the other
/// computer gets, and its release clears it.
pub proof fn law_buttons_keep_their_bits(
    before: CaptureState,
    g0: Guard,
    message: u32,
    mouse_data: u32,
    after: CaptureState,
    g1: Guard,
    pass: bool,
)
    ensures
        button_of(WM_LBUTTONDOWN, mouse_data) == 0x01 && button_of(WM_LBUTTONUP, mouse_data)
            == 0x01,
        button_of(WM_RBUTTONDOWN, mouse_data) == 0x02 && button_of(WM_RBUTTONUP, mouse_data)
            == 0x02,
        button_of(WM_MBUTTONDOWN, mouse_data) == 0x04 && button_of(WM_MBUTTONUP, mouse_data)
            == 0x04,
        button_of(WM_XBUTTONDOWN, 1u32 << 16u32) == 0x08 && button_of(WM_XBUTTONUP, 1u32 << 16u32)
            == 0x08,
        button_of(WM_XBUTTONDOWN, 2u32 << 16u32) == 0x10 && button_of(WM_XBUTTONUP, 2u32 << 16u32)
            == 0x10,
        !(message == WM_LBUTTONDOWN || message == WM_LBUTTONUP || message == WM_RBUTTONDOWN
            || message == WM_RBUTTONUP || message == WM_MBUTTONDOWN || message == WM_MBUTTONUP
            || message == WM_XBUTTONDOWN || message == WM_XBUTTONUP) ==> button_of(message, mouse_data)
            == 0,
        (mouse_event(before, g0, message, mouse_data, after, g1, pass) && message
            == WM_RBUTTONDOWN && g0.state().route_in_mode() == Route::Forward) ==> (
        after.fwd_buttons == before.fwd_buttons | 0x02 && is_move_packet(
            g1.queued().last(),
            0,
            0,
            before.fwd_buttons | 0x02,
        )),
{
    assert((1u32 << 16u32) >> 16u32 == 1) by (bit_vector);
    assert((2u32 << 16u32) >> 16u32 == 2) by (bit_vector);
}

} // verus!
