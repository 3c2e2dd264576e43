//! What both platforms' input capture share: how keys and buttons are
//! named for the focus state machine, and the key state message.
//!
//! The state machine sends each release where its press went, so it
//! remembers presses by an id:
//! - a key with a USB HID usage (keyboard page 0x07): that usage;
//! - a mouse button: [`BUTTON`] | its bit in the MSG_MOUSE_MOVE buttons byte;
//! - a key with no HID usage (never forwarded, only kept or passed):
//!   [`OTHER_KEY`] | the operating system's own code for it.

use vstd::prelude::*;

use crate::focus::{FocusState, Route};
use crate::hub::Out;
use crate::protocol::msg;

verus! {

pub const BUTTON: u32 = 0x100;
pub const OTHER_KEY: u32 = 0x1_0000;

pub fn key_id(usage: Option<u8>, native_code: u32) -> (id: u32)
    ensures
        id == (match usage {
            Some(u) => u as u32,
            None => OTHER_KEY | native_code,
        }),
{
    match usage {
        Some(u) => u as u32,
        None => OTHER_KEY | native_code,
    }
}

pub fn button_id(bit: u8) -> (id: u32)
    ensures
        id == BUTTON + bit,
{
    let b: u32 = bit as u32;
    assert(0x100u32 | b == 0x100u32 + b) by (bit_vector)
        requires
            b < 256,
    ;
    BUTTON | b
}

/// For a modifier key (HID 0xE0..=0xE7), its bit in the HID modifier byte.
pub open spec fn modifier_mask(usage: u8) -> Option<u8> {
    if 0xE0 <= usage <= 0xE7 {
        Some((1u8 << ((usage - 0xE0) as u8)) as u8)
    } else {
        None
    }
}

/// For modifier keys (HID 0xE0..=0xE7), the bit in the HID modifier byte.
pub fn modifier_bit(usage: u8) -> (r: Option<u8>)
    ensures
        r == modifier_mask(usage),
{
    if 0xE0 <= usage && usage <= 0xE7 {
        Some(1u8 << (usage - 0xE0))
    } else {
        None
    }
}

/// Whether an id names a key with a HID usage that is not a modifier.
pub open spec fn is_plain_key(id: u32) -> bool {
    id < BUTTON && modifier_mask(id as u8) is None
}

/// The usages of the plain keys among `ids`, in order.
pub open spec fn keys_among(ids: Seq<u32>) -> Seq<u8>
    decreases ids.len(),
{
    if ids.len() == 0 {
        seq![]
    } else {
        let before = keys_among(ids.drop_last());
        if is_plain_key(ids.last()) {
            before.push(ids.last() as u8)
        } else {
            before
        }
    }
}

/// The HID modifier byte of the modifier keys among `ids`.
pub open spec fn modifiers_among(ids: Seq<u32>) -> u8
    decreases ids.len(),
{
    if ids.len() == 0 {
        0
    } else {
        let before = modifiers_among(ids.drop_last());
        let id = ids.last();
        if id < BUTTON {
            match modifier_mask(id as u8) {
                Some(bit) => before | bit,
                None => before,
            }
        } else {
            before
        }
    }
}

/// The MSG_MOUSE_MOVE buttons byte of the buttons among `ids`.
pub open spec fn buttons_among(ids: Seq<u32>) -> u8
    decreases ids.len(),
{
    if ids.len() == 0 {
        0
    } else {
        let before = buttons_among(ids.drop_last());
        let id = ids.last();
        if BUTTON <= id < BUTTON + 0x100 {
            before | ((id - BUTTON) as u8)
        } else {
            before
        }
    }
}

/// MSG_KEY_STATE: modifiers, buttons, then the plain keys zero-padded to
/// six; nothing if more than six plain keys are held. Keys with no HID
/// usage are never sent.
pub open spec fn key_report(ids: Seq<u32>) -> Option<Seq<u8>> {
    let keys = keys_among(ids);
    if keys.len() > 6 {
        None
    } else {
        Some(
            seq![modifiers_among(ids), buttons_among(ids)] + keys + Seq::new(
                (6 - keys.len()) as nat,
                |i: int| 0u8,
            ),
        )
    }
}

proof fn lemma_keys_grow(ids: Seq<u32>, i: int)
    requires
        0 <= i <= ids.len(),
    ensures
        keys_among(ids.take(i)).len() <= keys_among(ids).len(),
    decreases ids.len() - i,
{
    if i < ids.len() {
        lemma_keys_grow(ids, i + 1);
        assert(ids.take(i + 1).drop_last() =~= ids.take(i));
    } else {
        assert(ids.take(i) =~= ids);
    }
}

/// Payload of MSG_KEY_STATE for the keys and buttons still held whose
/// press was forwarded (by id). `None` when more keys are held than a
/// keyboard report holds (6): the message is then skipped this time, as
/// it could not describe the state.
pub fn key_state(forwarded_held: &[u32]) -> (r: Option<[u8; 8]>)
    ensures
        match r {
            Some(state) => key_report(forwarded_held@) == Some(state@),
            None => key_report(forwarded_held@) is None,
        },
{
    let ghost ids = forwarded_held@;
    let mut state: [u8; 8] = [0u8; 8];  // modifiers, buttons, keys[6]
    let mut keys: usize = 0;
    let mut i: usize = 0;
    while i < forwarded_held.len()
        invariant
            ids == forwarded_held@,
            i <= ids.len(),
            keys == keys_among(ids.take(i as int)).len(),
            keys <= 6,
            state@ == seq![modifiers_among(ids.take(i as int)), buttons_among(ids.take(i as int))]
                + keys_among(ids.take(i as int)) + Seq::new(
                (6 - keys) as nat,
                |j: int| 0u8,
            ),
        decreases ids.len() - i,
    {
        let id = forwarded_held[i];
        let ghost before = ids.take(i as int);
        proof {
            assert(ids.take(i + 1).drop_last() =~= before);
            assert(ids.take(i + 1).last() == id);
        }
        if id < BUTTON {
            let usage = id as u8;
            match modifier_bit(usage) {
                Some(bit) => {
                    state[0] = state[0] | bit;
                },
                None => {
                    if keys == 6 {
                        proof {
                            lemma_keys_grow(ids, i + 1);
                        }
                        return None;
                    }
                    state[2 + keys] = usage;
                    keys = keys + 1;
                },
            }
        } else if id < BUTTON + 0x100 {
            state[1] = state[1] | (id - BUTTON) as u8;
        }
        // Keys without a HID usage: swallowed, never sent, so nothing to
        // repair.
        proof {
            let after = ids.take(i + 1);
            assert(state@ =~= seq![modifiers_among(after), buttons_among(after)] + keys_among(after)
                + Seq::new((6 - keys) as nat, |j: int| 0u8));
        }
        i = i + 1;
    }
    proof {
        assert(ids.take(ids.len() as int) =~= ids);
    }
    Some(state)
}


// ── MSG_MOUSE_MOVE ────────────────────────────────────────────────

/// `v` limited to the range of an i16.
pub open spec fn clamp_i16(v: int) -> int {
    if v < -32768 {
        -32768
    } else if v > 32767 {
        32767
    } else {
        v
    }
}

/// The two little-endian bytes of `v` as an i16 (two's complement).
pub open spec fn i16_le(v: int) -> Seq<u8> {
    let u = if v < 0 {
        v + 65536
    } else {
        v
    };
    seq![(u % 256) as u8, (u / 256) as u8]
}

/// The i16 whose two little-endian bytes start at `p[i]`.
pub open spec fn i16_at(p: Seq<u8>, i: int) -> int {
    let u = p[i] + 256 * p[i + 1];
    if u >= 32768 {
        u - 65536
    } else {
        u
    }
}

/// The bytes of an i16 value, least significant first.
pub fn i16_bytes(v: i32) -> (r: (u8, u8))
    requires
        -32768 <= v <= 32767,
    ensures
        seq![r.0, r.1] == i16_le(v as int),
{
    let u: u32 = if v < 0 {
        (v + 65536) as u32
    } else {
        v as u32
    };
    ((u % 256) as u8, (u / 256) as u8)
}

/// The i16 value of two bytes, least significant first.
pub fn i16_value(lo: u8, hi: u8) -> (r: i32)
    ensures
        r == i16_at(seq![lo, hi], 0),
        -32768 <= r <= 32767,
{
    let u: i32 = lo as i32 + (hi as i32) * 256;
    if u >= 32768 {
        u - 65536
    } else {
        u
    }
}

/// Reading back the bytes of an i16 value gives the value.
pub proof fn lemma_i16_round_trip(v: int)
    requires
        -32768 <= v <= 32767,
    ensures
        i16_at(i16_le(v), 0) == v,
{
}

/// Payload of MSG_MOUSE_MOVE: the movement, each axis limited to what an
/// i16 holds, and the buttons held.
pub open spec fn move_payload(dx: int, dy: int, buttons: u8) -> Seq<u8> {
    i16_le(clamp_i16(dx)) + i16_le(clamp_i16(dy)) + seq![buttons]
}

/// Payload of MSG_MOUSE_MOVE.
pub fn mouse_payload(dx: i32, dy: i32, buttons: u8) -> (p: [u8; 5])
    ensures
        p@ == move_payload(dx as int, dy as int, buttons),
{
    let x: i32 = if dx < -32768 {
        -32768
    } else if dx > 32767 {
        32767
    } else {
        dx
    };
    let y: i32 = if dy < -32768 {
        -32768
    } else if dy > 32767 {
        32767
    } else {
        dy
    };
    let (x0, x1) = i16_bytes(x);
    let (y0, y1) = i16_bytes(y);
    let p: [u8; 5] = [x0, x1, y0, y1, buttons];
    assert(p@ =~= move_payload(dx as int, dy as int, buttons));
    p
}

// ── what the captures send and decide ──────────────────────────────

/// The forwarded modifier byte once modifier key `usage` went up or down;
/// unchanged for any other key.
pub open spec fn modifiers_after(modifiers: u8, usage: u8, down: bool) -> u8 {
    match modifier_mask(usage) {
        Some(bit) => if down {
            modifiers | bit
        } else {
            modifiers & !bit
        },
        None => modifiers,
    }
}

/// A key packet for the other computer: the key, and the modifiers
/// forwarded and held with it.
pub open spec fn is_key_packet(out: Out, down: bool, usage: u8, modifiers: u8) -> bool {
    match out {
        Out::Input(t, p) => t == (if down {
            msg::KEY_DOWN
        } else {
            msg::KEY_UP
        }) && p@ == seq![usage, modifiers, 0u8, 0u8, 0u8],
        _ => false,
    }
}

/// A movement packet for the other computer (see [`move_payload`]).
pub open spec fn is_move_packet(out: Out, dx: int, dy: int, buttons: u8) -> bool {
    match out {
        Out::Input(t, p) => t == msg::MOUSE_MOVE && p@ == move_payload(dx, dy, buttons),
        _ => false,
    }
}

/// `q1` is `q0` with one more item at its end.
pub open spec fn one_more(q0: Seq<Out>, q1: Seq<Out>) -> bool {
    q1.len() == q0.len() + 1 && q1.drop_last() == q0
}

/// `q1` is `q0` with the key packet for `usage` going up or down, under
/// the modifiers `modifiers`; a key with no HID usage is only swallowed.
pub open spec fn key_queued(
    q0: Seq<Out>,
    usage: Option<u8>,
    down: bool,
    modifiers: u8,
    q1: Seq<Out>,
) -> bool {
    match usage {
        Some(u) => one_more(q0, q1) && is_key_packet(q1.last(), down, u, modifiers),
        None => q1 == q0,
    }
}

/// Where the release of `id` goes: where its press went, or to this
/// computer for a press the machine never saw.
pub open spec fn release_route(m: FocusState, id: u32) -> Route {
    if m.pressed.contains_key(id) {
        m.pressed[id]
    } else {
        Route::Pass
    }
}

/// Each modifier key has its own bit of the HID modifier byte, in the
/// order the HID specification gives: left Ctrl, Shift, Alt, GUI, then
/// the right ones; no other key has one.
pub proof fn law_modifier_bits_follow_the_hid_byte(usage: u8)
    ensures
        modifier_mask(0xE0) == Some(0x01u8),
        modifier_mask(0xE1) == Some(0x02u8),
        modifier_mask(0xE2) == Some(0x04u8),
        modifier_mask(0xE3) == Some(0x08u8),
        modifier_mask(0xE4) == Some(0x10u8),
        modifier_mask(0xE5) == Some(0x20u8),
        modifier_mask(0xE6) == Some(0x40u8),
        modifier_mask(0xE7) == Some(0x80u8),
        !(0xE0 <= usage <= 0xE7) ==> modifier_mask(usage) is None,
{
    assert(1u8 << 0u8 == 0x01u8) by (bit_vector);
    assert(1u8 << 1u8 == 0x02u8) by (bit_vector);
    assert(1u8 << 2u8 == 0x04u8) by (bit_vector);
    assert(1u8 << 3u8 == 0x08u8) by (bit_vector);
    assert(1u8 << 4u8 == 0x10u8) by (bit_vector);
    assert(1u8 << 5u8 == 0x20u8) by (bit_vector);
    assert(1u8 << 6u8 == 0x40u8) by (bit_vector);
    assert(1u8 << 7u8 == 0x80u8) by (bit_vector);
}

} // verus!
