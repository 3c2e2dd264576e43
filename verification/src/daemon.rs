//! The board side's own decisions: merging mouse movement that piled up
//! while a write waited, naming the computers, and choosing the board to
//! talk to.

use vstd::prelude::*;

pub mod session;

use crate::board::Found;
use crate::focus::{Mode, Node};
use crate::hub::Out;
use crate::input::{i16_at, i16_bytes, i16_le, i16_value, lemma_i16_round_trip};
use crate::protocol::msg;

verus! {

pub fn node_name(node: Node) -> (r: &'static str)
    ensures
        r@ == (match node {
            Node::Pc => "PC"@,
            Node::Mac => "Mac"@,
        }),
{
    match node {
        Node::Pc => "PC",
        Node::Mac => "Mac",
    }
}

/// What a mode means for this computer's own input, as the log says it.
pub fn mode_phrase(mode: Mode) -> (r: &'static str)
    ensures
        r@ == (match mode {
            Mode::Split => "own keyboard and mouse here"@,
            Mode::Focused => "all input here"@,
            Mode::Closing { .. } => "closing the board's input gate"@,
            Mode::Unfocused => "forwarding own input"@,
        }),
{
    match mode {
        Mode::Split => "own keyboard and mouse here",
        Mode::Focused => "all input here",
        Mode::Closing { .. } => "closing the board's input gate",
        Mode::Unfocused => "forwarding own input",
    }
}

// ── merging movement ──────────────────────────────────────────────

/// The x (`i` = 0) or y (`i` = 2) movement of a MSG_MOUSE_MOVE payload.
pub open spec fn axis(p: [u8; 5], i: int) -> int {
    i16_at(p@, i)
}

/// Whether `v` fits an i16.
pub open spec fn fits_i16(v: int) -> bool {
    -32768 <= v <= 32767
}

/// Two neighbouring items merge when both are movement with the same
/// buttons held and the summed movement still fits the message.
pub open spec fn mergeable(last: Out, next: Out) -> bool {
    match (last, next) {
        (Out::Input(t1, a), Out::Input(t2, b)) => t1 == msg::MOUSE_MOVE && t2 == msg::MOUSE_MOVE
            && a[4] == b[4] && fits_i16(axis(a, 0) + axis(b, 0)) && fits_i16(
            axis(a, 2) + axis(b, 2),
        ),
        _ => false,
    }
}

/// The payload of two movements merged: both summed, buttons as they were.
pub open spec fn summed(a: [u8; 5], b: [u8; 5]) -> [u8; 5] {
    let x = i16_le(axis(a, 0) + axis(b, 0));
    let y = i16_le(axis(a, 2) + axis(b, 2));
    [x[0], x[1], y[0], y[1], a[4]]
}

/// The payload of an input item.
pub open spec fn payload_of(o: Out) -> [u8; 5] {
    match o {
        Out::Input(_, p) => p,
        _ => [0u8, 0u8, 0u8, 0u8, 0u8],
    }
}

/// The work after merging: each item in turn either merges into the one
/// before it (see [`mergeable`]) or follows it.
pub open spec fn merged(work: Seq<Out>) -> Seq<Out>
    decreases work.len(),
{
    if work.len() == 0 {
        seq![]
    } else {
        let m = merged(work.drop_last());
        let o = work.last();
        if m.len() > 0 && mergeable(m.last(), o) {
            m.update(
                m.len() - 1,
                Out::Input(msg::MOUSE_MOVE, summed(payload_of(m.last()), payload_of(o))),
            )
        } else {
            m.push(o)
        }
    }
}

/// Whether a work item is movement.
pub open spec fn is_move(o: Out) -> bool {
    o matches Out::Input(t, _) && t == msg::MOUSE_MOVE
}

/// The movement in `work`, summed on the x (`i` = 0) or y (`i` = 2) axis.
pub open spec fn total_movement(work: Seq<Out>, i: int) -> int
    decreases work.len(),
{
    if work.len() == 0 {
        0
    } else {
        total_movement(work.drop_last(), i) + if is_move(work.last()) {
            axis(payload_of(work.last()), i)
        } else {
            0
        }
    }
}

/// The items of `work` that are not movement, in order.
pub open spec fn all_but_movement(work: Seq<Out>) -> Seq<Out>
    decreases work.len(),
{
    if work.len() == 0 {
        seq![]
    } else if is_move(work.last()) {
        all_but_movement(work.drop_last())
    } else {
        all_but_movement(work.drop_last()).push(work.last())
    }
}

/// What an item shows of the runs in the work: the buttons held, for
/// movement; nothing, for anything else.
pub open spec fn run_mark(o: Out) -> Option<u8> {
    if is_move(o) {
        Some(payload_of(o)[4])
    } else {
        None
    }
}

/// The work as runs: one mark for each stretch of movement with the same
/// buttons held, and one for each other item, in order.
pub open spec fn button_runs(work: Seq<Out>) -> Seq<Option<u8>>
    decreases work.len(),
{
    if work.len() == 0 {
        seq![]
    } else {
        let t = button_runs(work.drop_last());
        let x = run_mark(work.last());
        if x is Some && t.len() > 0 && t.last() == x {
            t
        } else {
            t.push(x)
        }
    }
}

/// B6: merging loses no movement and moves nothing else. The movement
/// adds up to the same on each axis, every other item stays, in its
/// order, movement merges only within a stretch with the same buttons
/// held and nothing else in between, and no item is added.
pub proof fn law_merging_keeps_movement_and_order(work: Seq<Out>)
    ensures
        total_movement(merged(work), 0) == total_movement(work, 0),
        total_movement(merged(work), 2) == total_movement(work, 2),
        all_but_movement(merged(work)) == all_but_movement(work),
        button_runs(merged(work)) == button_runs(work),
        merged(work).len() <= work.len(),
    decreases work.len(),
{
    if work.len() > 0 {
        let rest = work.drop_last();
        law_merging_keeps_movement_and_order(rest);
        let m = merged(rest);
        let o = work.last();
        if m.len() > 0 && mergeable(m.last(), o) {
            let a = payload_of(m.last());
            let b = payload_of(o);
            let sum = summed(a, b);
            let u = m.update(m.len() - 1, Out::Input(msg::MOUSE_MOVE, sum));
            assert(u.drop_last() =~= m.drop_last());
            let x = axis(a, 0) + axis(b, 0);
            let y = axis(a, 2) + axis(b, 2);
            lemma_i16_round_trip(x);
            lemma_i16_round_trip(y);
            assert(sum@ =~= i16_le(x) + i16_le(y) + seq![a[4]]);
            assert(axis(sum, 0) == i16_at(i16_le(x), 0));
            assert(axis(sum, 2) == i16_at(i16_le(y), 0));
        } else {
            assert(m.push(o).drop_last() =~= m);
        }
    }
}

/// Mouse movement that piled up in the queue (while a write to the board
/// waited: the board holds the computer back when its radio is busy) is
/// merged, so it arrives at once instead of late, packet by packet.
/// Only neighbours with the same buttons merge: everything keeps its order.
pub fn merge_moves(work: Vec<Out>) -> (r: Vec<Out>)
    ensures
        r@ == merged(work@),
{
    let mut out: Vec<Out> = Vec::new();
    let mut i: usize = 0;
    while i < work.len()
        invariant
            i <= work@.len(),
            out@ == merged(work@.take(i as int)),
        decreases work@.len() - i,
    {
        let next = work[i];
        proof {
            assert(work@.take(i + 1).drop_last() =~= work@.take(i as int));
        }
        let n = out.len();
        let joined = if n > 0 {
            merge_pair(out[n - 1], next)
        } else {
            None
        };
        match joined {
            Some(sum) => {
                out.set(n - 1, sum);
            },
            None => {
                out.push(next);
            },
        }
        i = i + 1;
    }
    proof {
        assert(work@.take(work@.len() as int) =~= work@);
    }
    out
}

/// The two items merged into one, if they merge.
fn merge_pair(last: Out, next: Out) -> (r: Option<Out>)
    ensures
        match r {
            Some(o) => mergeable(last, next) && o == Out::Input(
                msg::MOUSE_MOVE,
                summed(payload_of(last), payload_of(next)),
            ),
            None => !mergeable(last, next),
        },
{
    if let (Out::Input(t1, a), Out::Input(t2, b)) = (last, next) {
        if t1 == msg::MOUSE_MOVE && t2 == msg::MOUSE_MOVE && a[4] == b[4] {
            let dx = i16_value(a[0], a[1]) + i16_value(b[0], b[1]);
            let dy = i16_value(a[2], a[3]) + i16_value(b[2], b[3]);
            proof {
                assert(i16_at(a@, 0) == i16_at(seq![a[0], a[1]], 0));
                assert(i16_at(b@, 0) == i16_at(seq![b[0], b[1]], 0));
                assert(i16_at(a@, 2) == i16_at(seq![a[2], a[3]], 0));
                assert(i16_at(b@, 2) == i16_at(seq![b[2], b[3]], 0));
            }
            if -32768 <= dx && dx <= 32767 && -32768 <= dy && dy <= 32767 {
                let (x0, x1) = i16_bytes(dx);
                let (y0, y1) = i16_bytes(dy);
                let sum: [u8; 5] = [x0, x1, y0, y1, a[4]];
                proof {
                    assert(sum@ =~= summed(a, b)@);
                }
                return Some(Out::Input(msg::MOUSE_MOVE, sum));
            }
        }
    }
    None
}

// ── choosing the board ────────────────────────────────────────────

/// Which board to talk to, or why there is none.
#[derive(Debug)]
pub enum Choice {
    /// Talk to the board on this port.
    Use(String),
    /// The port asked for has no Omni-KVM board.
    NotOnPort(String),
    /// No Omni-KVM board is plugged in.
    NoBoard,
    /// Several boards are plugged in and no port was named.
    Several(Vec<Found>),
}

/// Picks the board to talk to among those found, or says why there is
/// none: the port asked for if a board is there; otherwise the only board.
pub fn choose_board(found: &Vec<Found>, wanted: Option<&str>) -> (r: Choice)
    ensures
        wanted is Some ==> match r {
            Choice::Use(p) => p@ == wanted.unwrap()@ && exists|i: int|
                0 <= i < found@.len() && found@[i].port@ == wanted.unwrap()@,
            Choice::NotOnPort(p) => p@ == wanted.unwrap()@ && forall|i: int|
                0 <= i < found@.len() ==> found@[i].port@ != wanted.unwrap()@,
            _ => false,
        },
        wanted is None ==> match r {
            Choice::Use(p) => found@.len() == 1 && p@ == found@[0].port@,
            Choice::NoBoard => found@.len() == 0,
            Choice::Several(list) => found@.len() > 1 && list@.len() == found@.len() && (forall|
                i: int,
            |
                0 <= i < found@.len() ==> list@[i].port@ == found@[i].port@ && list@[i].serial
                    == found@[i].serial),
            _ => false,
        },
{
    match wanted {
        Some(port) => {
            let name: String = port.to_string();
            proof {
                broadcast use vstd::string::group_string_axioms;

                assert(name@ == port@);
            }
            let mut i: usize = 0;
            while i < found.len()
                invariant
                    i <= found@.len(),
                    name@ == port@,
                    wanted == Some(port),
                    forall|k: int| 0 <= k < i ==> found@[k].port@ != port@,
                decreases found@.len() - i,
            {
                if found[i].port == name {
                    proof {
                        assert(found@[i as int].port@ == port@);
                    }
                    return Choice::Use(name);
                }
                i = i + 1;
            }
            Choice::NotOnPort(name)
        },
        None => {
            if found.len() == 0 {
                Choice::NoBoard
            } else if found.len() == 1 {
                Choice::Use(found[0].port.clone())
            } else {
                let mut list: Vec<Found> = Vec::new();
                let mut i: usize = 0;
                while i < found.len()
                    invariant
                        i <= found@.len(),
                        list@.len() == i,
                        forall|k: int|
                            0 <= k < i ==> list@[k].port@ == found@[k].port@ && list@[k].serial
                                == found@[k].serial,
                    decreases found@.len() - i,
                {
                    list.push(Found { port: found[i].port.clone(), serial: found[i].serial.clone() });
                    i = i + 1;
                }
                Choice::Several(list)
            }
        },
    }
}

} // verus!
