//! The local Omni-KVM board, reached over its USB CDC serial port: which
//! ports are boards, how packets are numbered on the way out, and how
//! they are found again in the byte stream coming back.
//!
//! (Opening the port and moving the bytes is the program's part.)

use vstd::prelude::*;

use crate::protocol::{self, MAGIC, PACKET_SIZE, VERSION};

verus! {

/// Espressif's USB vendor ID; the board's "USB" port uses it.
pub const ESPRESSIF_VID: u16 = 0x303A;

/// A board's CDC port as found on this computer.
#[derive(Debug, Clone)]
pub struct Found {
    /// e.g. "COM9" on Windows, "/dev/cu.usbmodemE8F60A8DB00C2" on macOS.
    pub port: String,
    /// USB serial number: the board's MAC address, e.g. "907069353188".
    pub serial: Option<String>,
}

/// A serial port as the operating system lists it.
#[derive(Debug, Clone)]
pub struct Port {
    pub name: String,
    /// The USB vendor ID, for a USB port.
    pub vid: Option<u16>,
    /// The USB serial number, for a USB port that has one.
    pub serial: Option<String>,
    /// The name starts with "/dev/tty.": macOS's dial-in twin of a port.
    pub dial_in: bool,
}

/// Whether a listed port is a board to talk to: an Espressif USB port,
/// and on macOS not the "/dev/tty." twin of a port.
pub open spec fn is_board(port: Port, on_macos: bool) -> bool {
    port.vid == Some(ESPRESSIF_VID) && !(on_macos && port.dial_in)
}

/// The boards among listed ports: the ports that are boards, in order.
pub open spec fn boards_among(ports: Seq<Port>, on_macos: bool) -> Seq<Port> {
    ports.filter(|p: Port| is_board(p, on_macos))
}

/// Picks the Omni-KVM boards among the serial ports listed on this
/// computer, in the order listed. macOS lists each serial device twice:
/// /dev/cu.* ("call-out") and /dev/tty.* ("dial-in", whose open can wait
/// for a modem carrier); programs that start the conversation, like this
/// one, use cu.*.
pub fn select_boards(ports: Vec<Port>, on_macos: bool) -> (found: Vec<Found>)
    ensures
        found@.len() == boards_among(ports@, on_macos).len(),
        forall|i: int|
            0 <= i < found@.len() ==> found@[i].port@ == boards_among(ports@, on_macos)[i].name@
                && found@[i].serial == boards_among(ports@, on_macos)[i].serial,
{
    let ghost all = ports@;
    let mut found: Vec<Found> = Vec::new();
    let mut i: usize = 0;
    while i < ports.len()
        invariant
            all == ports@,
            i <= all.len(),
            found@.len() == boards_among(all.take(i as int), on_macos).len(),
            forall|k: int|
                0 <= k < found@.len() ==> found@[k].port@ == boards_among(
                    all.take(i as int),
                    on_macos,
                )[k].name@ && found@[k].serial == boards_among(all.take(i as int), on_macos)[k].serial,
        decreases all.len() - i,
    {
        let port = &ports[i];
        proof {
            assert(all.take(i + 1).drop_last() =~= all.take(i as int));
            reveal_with_fuel(Seq::filter, 1);
        }
        if port.vid == Some(ESPRESSIF_VID) && !(on_macos && port.dial_in) {
            found.push(Found { port: port.name.clone(), serial: port.serial.clone() });
        }
        i = i + 1;
    }
    proof {
        assert(all.take(all.len() as int) =~= all);
    }
    found
}

/// The packets a board sends to its daemon are numbered 1, 2, 3, ...,
/// wrapping after the largest number.
pub struct Outbox {
    seq: u32,
}

/// The number after `n`, wrapping to 0 after the largest.
pub open spec fn next_seq(n: u32) -> u32 {
    if n == u32::MAX {
        0
    } else {
        (n + 1) as u32
    }
}

impl Outbox {
    pub closed spec fn last_seq(self) -> u32 {
        self.seq
    }

    /// Nothing sent yet.
    pub fn new() -> (r: Outbox)
        ensures
            r.last_seq() == 0,
    {
        Outbox { seq: 0 }
    }

    /// The next packet to send: numbered one after the last.
    pub fn next_packet(&mut self, msg_type: u8, payload: &[u8]) -> (p: [u8; PACKET_SIZE])
        requires
            payload@.len() <= protocol::PACKET_SIZE - protocol::HEADER_SIZE,
        ensures
            final(self).last_seq() == next_seq(old(self).last_seq()),
            p@ == protocol::framed(msg_type, next_seq(old(self).last_seq()), payload@),
    {
        self.seq = self.seq.wrapping_add(1);
        protocol::packet(msg_type, self.seq, payload)
    }
}

// ── finding packets in the byte stream ────────────────────────────

/// Where the first packet start (magic, then version) at or after `i`
/// lies in `b`; `b.len()` if there is none.
pub open spec fn header_from(b: Seq<u8>, i: int) -> int
    decreases b.len() - i,
{
    if i < 0 || i + 1 >= b.len() {
        b.len() as int
    } else if b[i] == MAGIC && b[i + 1] == VERSION {
        i
    } else {
        header_from(b, i + 1)
    }
}

pub proof fn lemma_header_from_bounds(b: Seq<u8>, i: int)
    requires
        0 <= i,
    ensures
        i <= header_from(b, i) || header_from(b, i) == b.len(),
        header_from(b, i) <= b.len(),
        header_from(b, i) < b.len() ==> header_from(b, i) + 1 < b.len()
            && b[header_from(b, i)] == MAGIC && b[header_from(b, i) + 1] == VERSION,
    decreases b.len() - i,
{
    if i + 1 < b.len() && !(b[i] == MAGIC && b[i + 1] == VERSION) {
        lemma_header_from_bounds(b, i + 1);
    }
}

/// The packets in `b` from offset `p` on, and the bytes left over: each
/// packet starts at the next magic-and-version pair and is 64 bytes long;
/// bytes before a packet start are skipped. Left over: a packet still
/// arriving, or a final magic byte whose version byte may be on its way.
pub open spec fn packets_from(b: Seq<u8>, p: int) -> (Seq<Seq<u8>>, Seq<u8>)
    decreases b.len() - p,
{
    let s = header_from(b, p);
    if p < 0 || p > b.len() {
        (seq![], seq![])
    } else if s >= b.len() {
        (seq![], if p < b.len() && b.last() == MAGIC { seq![MAGIC] } else { seq![] })
    } else if b.len() - s < 64 {
        (seq![], b.subrange(s, b.len() as int))
    } else {
        proof {
            lemma_header_from_bounds(b, p);
        }
        let rest = packets_from(b, s + 64);
        (seq![b.subrange(s, s + 64)] + rest.0, rest.1)
    }
}

/// The packets in a byte stream and the bytes left over.
pub open spec fn packets_in(b: Seq<u8>) -> (Seq<Seq<u8>>, Seq<u8>) {
    packets_from(b, 0)
}

/// The first packet start at or after `from`, or `buf.len()`.
fn find_header(buf: &Vec<u8>, from: usize) -> (r: usize)
    requires
        from <= buf@.len(),
    ensures
        r == header_from(buf@, from as int),
{
    let mut i: usize = from;
    while i < buf.len() && i + 1 < buf.len() && !(buf[i] == MAGIC && buf[i + 1] == VERSION)
        invariant
            from <= i <= buf@.len(),
            header_from(buf@, i as int) == header_from(buf@, from as int),
        decreases buf@.len() - i,
    {
        i = i + 1;
    }
    if i < buf.len() && i + 1 < buf.len() {
        i
    } else {
        buf.len()
    }
}

/// Removes the complete packets from the front of `buf`. The serial link
/// is a byte stream with no packet boundaries, so a packet is found by its
/// first two bytes (magic, version); anything before that is skipped.
pub fn take_packets(buf: &mut Vec<u8>) -> (packets: Vec<[u8; PACKET_SIZE]>)
    ensures
        packets@.map_values(|p: [u8; PACKET_SIZE]| p@) == packets_in(old(buf)@).0,
        final(buf)@ == packets_in(old(buf)@).1,
{
    let ghost b = buf@;
    let mut packets: Vec<[u8; PACKET_SIZE]> = Vec::new();
    let mut pos: usize = 0;
    let mut rest: Vec<u8> = Vec::new();
    loop
        invariant_except_break
            buf@ == b,
            pos <= b.len(),
            rest@.len() == 0,
            packets_in(b).0 == packets@.map_values(|p: [u8; PACKET_SIZE]| p@) + packets_from(
                b,
                pos as int,
            ).0,
            packets_in(b).1 == packets_from(b, pos as int).1,
        ensures
            buf@ == b,
            packets_in(b).0 == packets@.map_values(|p: [u8; PACKET_SIZE]| p@),
            packets_in(b).1 == rest@,
        decreases b.len() - pos,
    {
        let start = find_header(buf, pos);
        proof {
            lemma_header_from_bounds(b, pos as int);
        }
        if start >= buf.len() {
            // Keep a trailing magic byte: its version byte may be on its way.
            if pos < buf.len() && buf[buf.len() - 1] == MAGIC {
                rest.push(MAGIC);
            }
            proof {
                assert(rest@ =~= packets_from(b, pos as int).1);
                assert(packets@.map_values(|p: [u8; PACKET_SIZE]| p@) + packets_from(b, pos as int).0
                    =~= packets@.map_values(|p: [u8; PACKET_SIZE]| p@));
            }
            break ;
        }
        if buf.len() - start < PACKET_SIZE {
            let mut i: usize = start;
            while i < buf.len()
                invariant
                    buf@ == b,
                    start <= i <= b.len(),
                    rest@ == b.subrange(start as int, i as int),
                decreases b.len() - i,
            {
                rest.push(buf[i]);
                proof {
                    assert(rest@ =~= b.subrange(start as int, i + 1));
                }
                i = i + 1;
            }
            proof {
                assert(packets@.map_values(|p: [u8; PACKET_SIZE]| p@) + packets_from(b, pos as int).0
                    =~= packets@.map_values(|p: [u8; PACKET_SIZE]| p@));
            }
            break ;
        }
        let mut packet: [u8; PACKET_SIZE] = [0u8; 64];
        let mut k: usize = 0;
        while k < PACKET_SIZE
            invariant
                buf@ == b,
                start + 64 <= b.len(),
                b.len() <= usize::MAX,
                k <= 64,
                forall|j: int| 0 <= j < k ==> packet@[j] == b[start + j],
            decreases 64 - k,
        {
            packet[k] = buf[start + k];
            k = k + 1;
        }
        let ghost before = packets@.map_values(|p: [u8; PACKET_SIZE]| p@);
        packets.push(packet);
        proof {
            assert(packet@ =~= b.subrange(start as int, start + 64));
            assert(packets@.map_values(|p: [u8; PACKET_SIZE]| p@) =~= before.push(packet@));
            let later = packets_from(b, start + 64);
            assert(packets_from(b, pos as int).0 =~= seq![b.subrange(start as int, start + 64)]
                + later.0);
            assert(before + packets_from(b, pos as int).0 =~= packets@.map_values(
                |p: [u8; PACKET_SIZE]| p@,
            ) + later.0);
        }
        pos = start + PACKET_SIZE;
    }
    *buf = rest;
    packets
}

// ── reading the stream in pieces ───────────────────────────────────

/// A packet start found at or after `i` within `a` is also the first one
/// in `a` followed by anything.
proof fn lemma_header_in_prefix(a: Seq<u8>, b: Seq<u8>, i: int)
    requires
        0 <= i,
        header_from(a, i) < a.len(),
    ensures
        header_from(a + b, i) == header_from(a, i),
    decreases a.len() - i,
{
    let ab = a + b;
    assert(ab[i] == a[i] && ab[i + 1] == a[i + 1]);
    if !(a[i] == MAGIC && a[i + 1] == VERSION) {
        lemma_header_in_prefix(a, b, i + 1);
    }
}

/// Past the end of `x`, packet starts in `x + y` are those of `y`, moved
/// along by the length of `x`.
proof fn lemma_header_shifted(x: Seq<u8>, y: Seq<u8>, q: int)
    requires
        0 <= q,
    ensures
        header_from(x + y, x.len() + q) == x.len() + header_from(y, q),
    decreases y.len() - q,
{
    let xy = x + y;
    if q + 1 < y.len() {
        assert(xy[x.len() + q] == y[q] && xy[x.len() + q + 1] == y[q + 1]);
        if !(y[q] == MAGIC && y[q + 1] == VERSION) {
            lemma_header_shifted(x, y, q + 1);
        }
    }
}

/// With no packet start in `a` from `i` on, the first one in `a + b` is
/// at the last byte of `a` or later.
proof fn lemma_no_header_in_prefix(a: Seq<u8>, b: Seq<u8>, i: int)
    requires
        0 <= i < a.len(),
        header_from(a, i) == a.len(),
    ensures
        header_from(a + b, i) == header_from(a + b, a.len() - 1),
    decreases a.len() - i,
{
    if i < a.len() - 1 {
        let ab = a + b;
        assert(ab[i] == a[i] && ab[i + 1] == a[i + 1]);
        lemma_no_header_in_prefix(a, b, i + 1);
    }
}

/// Reading on from two offsets with the same next packet start, both
/// inside the stream, reads the same.
proof fn lemma_same_start(b: Seq<u8>, p1: int, p2: int)
    requires
        0 <= p1 < b.len(),
        0 <= p2 < b.len(),
        header_from(b, p1) == header_from(b, p2),
    ensures
        packets_from(b, p1) == packets_from(b, p2),
{
}

/// Past the end of `x`, `x + y` reads as `y`.
proof fn lemma_packets_shifted(x: Seq<u8>, y: Seq<u8>, q: int)
    requires
        0 <= q <= y.len(),
    ensures
        packets_from(x + y, x.len() + q) == packets_from(y, q),
    decreases y.len() - q,
{
    let xy = x + y;
    lemma_header_shifted(x, y, q);
    lemma_header_from_bounds(y, q);
    let s = header_from(y, q);
    if s < y.len() && y.len() - s >= 64 {
        lemma_packets_shifted(x, y, s + 64);
        assert(xy.subrange(x.len() + s, x.len() + s + 64) =~= y.subrange(s, s + 64));
    } else if s < y.len() {
        assert(xy.subrange(x.len() + s, xy.len() as int) =~= y.subrange(s, y.len() as int));
    } else if q < y.len() {
        assert(xy.last() == y.last());
    }
}

/// Reading `a + b` from offset `p` within `a`: what `a` alone gives from
/// there, then what its leftover followed by `b` gives.
proof fn lemma_packets_split(a: Seq<u8>, b: Seq<u8>, p: int)
    requires
        0 <= p <= a.len(),
    ensures
        ({
            let (pa, ra) = packets_from(a, p);
            let (pb, rb) = packets_in(ra + b);
            packets_from(a + b, p) == (pa + pb, rb)
        }),
    decreases a.len() - p,
{
    let ab = a + b;
    let n = a.len() as int;
    lemma_header_from_bounds(a, p);
    let s = header_from(a, p);
    if b.len() == 0 {
        assert(ab =~= a);
        let (pa, ra) = packets_from(a, p);
        // What is left over holds no whole packet.
        lemma_leftover_holds_no_packet(a, p);
        assert(ra + b =~= ra);
        assert(pa + seq![] =~= pa);
    } else if s < n {
        lemma_header_in_prefix(a, b, p);
        if n - s >= 64 {
            lemma_packets_split(a, b, s + 64);
            assert(ab.subrange(s, s + 64) =~= a.subrange(s, s + 64));
            let (pa, ra) = packets_from(a, s + 64);
            let (pb, rb) = packets_in(ra + b);
            assert(seq![a.subrange(s, s + 64)] + pa + pb =~= seq![a.subrange(s, s + 64)] + (pa + pb));
        } else {
            let ra = a.subrange(s, n);
            let y = ra + b;
            assert(ab =~= a.subrange(0, s) + y);
            assert(y[0] == MAGIC && y[1] == VERSION);
            assert(header_from(y, 0) == 0);
            if y.len() >= 64 {
                lemma_packets_shifted(a.subrange(0, s), y, 64);
                assert(ab.subrange(s, s + 64) =~= y.subrange(0, 64));
            } else {
                assert(ab.subrange(s, ab.len() as int) =~= y.subrange(0, y.len() as int));
            }
        }
    } else if p == n {
        assert(ab =~= a + b);
        lemma_packets_shifted(a, b, 0);
        assert(seq![] + b =~= b);
    } else if a.last() == MAGIC {
        let y = seq![MAGIC] + b;
        assert(ab =~= a.subrange(0, n - 1) + y);
        lemma_no_header_in_prefix(a, b, p);
        lemma_same_start(ab, p, n - 1);
        lemma_packets_shifted(a.subrange(0, n - 1), y, 0);
    } else {
        lemma_no_header_in_prefix(a, b, p);
        assert(ab[n - 1] == a[n - 1]);
        assert(header_from(ab, n - 1) == header_from(ab, n));
        lemma_same_start(ab, p, n);
        lemma_packets_shifted(a, b, 0);
        assert(seq![] + b =~= b);
    }
}

/// What is left over after reading holds no whole packet: it is shorter
/// than a packet.
proof fn lemma_leftover_holds_no_packet(a: Seq<u8>, p: int)
    requires
        0 <= p <= a.len(),
    ensures
        packets_from(a, p).1.len() < 64,
        packets_in(packets_from(a, p).1) == (Seq::<Seq<u8>>::empty(), packets_from(a, p).1),
    decreases a.len() - p,
{
    lemma_header_from_bounds(a, p);
    let s = header_from(a, p);
    if s < a.len() && a.len() - s >= 64 {
        lemma_leftover_holds_no_packet(a, s + 64);
    } else if s < a.len() {
        let r = a.subrange(s, a.len() as int);
        assert(r[0] == MAGIC && r[1] == VERSION);
        assert(header_from(r, 0) == 0);
    } else if p < a.len() && a.last() == MAGIC {
        let r = seq![MAGIC];
        assert(header_from(r, 0) == 1);
    }
}

/// The stream can be read in pieces: the packets found in `a` and then
/// in what it left over followed by `b` are the packets of `a` followed
/// by `b`, read at once, with the same left over. So a packet is found
/// however the bytes arrive (F4).
pub proof fn law_packets_survive_any_split(a: Seq<u8>, b: Seq<u8>)
    ensures
        ({
            let (pa, ra) = packets_in(a);
            let (pb, rb) = packets_in(ra + b);
            packets_in(a + b) == (pa + pb, rb)
        }),
{
    lemma_packets_split(a, b, 0);
}

} // verus!
