//! Omni-KVM protocol (version byte 0x01): packet layout and constants.
//!
//! Every packet is 64 bytes: an 8-byte header (magic, version, message
//! type, flags, sequence number), then the payload, zero-padded.
//! Multi-byte fields are little-endian.

use vstd::prelude::*;
use vstd::view::View as _;

use crate::focus::{Entry, Holder, Node, View};

pub mod msg;

verus! {

pub const MAGIC: u8 = 0x4B;  // 'K' for KVM
pub const VERSION: u8 = 0x01;
pub const PACKET_SIZE: usize = 64;
pub const HEADER_SIZE: usize = 8;

pub const CMD_REQUEST_LINK_STATS: u8 = 0x04;
pub const CMD_GATE_OPEN: u8 = 0x08;
/// data[0] = request number, answered by STATUS_GATE_CLOSED.
pub const CMD_GATE_CLOSE: u8 = 0x09;
pub const STATUS_LINK_STATS: u8 = 0x03;
/// data[0] = 1 up, 0 down.
pub const STATUS_LINK_CHANGED: u8 = 0x05;
/// data[0] = the request number it answers.
pub const STATUS_GATE_CLOSED: u8 = 0x06;
pub const LINK_STATS_LAYOUT: u8 = 3;

// ── little-endian numbers ─────────────────────────────────────────

/// The four bytes of `x`, least significant first.
pub open spec fn le_u32(x: u32) -> Seq<u8> {
    seq![
        (x % 256) as u8,
        ((x / 256) % 256) as u8,
        ((x / 65536) % 256) as u8,
        (x / 16777216) as u8,
    ]
}

/// The two bytes of `x`, least significant first.
pub open spec fn le_u16(x: u16) -> Seq<u8> {
    seq![(x % 256) as u8, (x / 256) as u8]
}

/// The number whose four little-endian bytes start at `b[i]`.
pub open spec fn u32_le(b: Seq<u8>, i: int) -> u32 {
    (b[i] + 256 * b[i + 1] + 65536 * b[i + 2] + 16777216 * b[i + 3]) as u32
}

/// The number whose two little-endian bytes start at `b[i]`.
pub open spec fn u16_le(b: Seq<u8>, i: int) -> u16 {
    (b[i] + 256 * b[i + 1]) as u16
}

/// Reading back the bytes of a number gives the number.
pub proof fn lemma_le_u32_round_trip(x: u32, b: Seq<u8>, i: int)
    requires
        0 <= i,
        i + 4 <= b.len(),
        b.subrange(i, i + 4) == le_u32(x),
    ensures
        u32_le(b, i) == x,
{
    assert(b[i] == le_u32(x)[0]);
    assert(b[i + 1] == le_u32(x)[1]);
    assert(b[i + 2] == le_u32(x)[2]);
    assert(b[i + 3] == le_u32(x)[3]);
}

/// Reading back the bytes of a number gives the number.
pub proof fn lemma_le_u16_round_trip(x: u16, b: Seq<u8>, i: int)
    requires
        0 <= i,
        i + 2 <= b.len(),
        b.subrange(i, i + 2) == le_u16(x),
    ensures
        u16_le(b, i) == x,
{
    assert(b[i] == le_u16(x)[0]);
    assert(b[i + 1] == le_u16(x)[1]);
}

fn u32_bytes(x: u32) -> (r: [u8; 4])
    ensures
        r@ == le_u32(x),
{
    let r: [u8; 4] = [
        (x % 256) as u8,
        ((x / 256) % 256) as u8,
        ((x / 65536) % 256) as u8,
        (x / 16777216) as u8,
    ];
    assert(r@ =~= le_u32(x));
    r
}

fn u16_bytes(x: u16) -> (r: [u8; 2])
    ensures
        r@ == le_u16(x),
{
    let r: [u8; 2] = [(x % 256) as u8, (x / 256) as u8];
    assert(r@ =~= le_u16(x));
    r
}

/// The number whose four little-endian bytes start at packet offset `i`.
fn u32_at(p: &[u8; PACKET_SIZE], i: usize) -> (r: u32)
    requires
        i + 4 <= PACKET_SIZE,
    ensures
        r == u32_le(p@, i as int),
{
    p[i] as u32 + (p[i + 1] as u32) * 256 + (p[i + 2] as u32) * 65536 + (p[i + 3] as u32)
        * 16777216
}

/// The number whose two little-endian bytes start at packet offset `i`.
fn u16_at(p: &[u8; PACKET_SIZE], i: usize) -> (r: u16)
    requires
        i + 2 <= PACKET_SIZE,
    ensures
        r == u16_le(p@, i as int),
{
    p[i] as u16 + (p[i + 1] as u16) * 256
}

// ── packets ───────────────────────────────────────────────────────

/// A packet: magic, version, message type, no flags, the sequence number,
/// then `payload`, zero-padded to 64 bytes.
pub open spec fn framed(msg_type: u8, seq: u32, payload: Seq<u8>) -> Seq<u8> {
    seq![MAGIC, VERSION, msg_type, 0u8] + le_u32(seq) + payload + Seq::new(
        (56 - payload.len()) as nat,
        |i: int| 0u8,
    )
}

/// Builds a 64-byte packet: header, then `payload`, zero-padded.
pub fn packet(msg_type: u8, seq: u32, payload: &[u8]) -> (p: [u8; PACKET_SIZE])
    requires
        payload@.len() <= PACKET_SIZE - HEADER_SIZE,
    ensures
        p@ == framed(msg_type, seq, payload@),
{
    let mut p: [u8; 64] = [0u8; 64];
    p[0] = MAGIC;
    p[1] = VERSION;
    p[2] = msg_type;
    p[3] = 0;  // flags
    let s = u32_bytes(seq);
    p[4] = s[0];
    p[5] = s[1];
    p[6] = s[2];
    p[7] = s[3];
    let mut i: usize = 0;
    while i < payload.len()
        invariant
            i <= payload@.len() <= 56,
            p@.len() == 64,
            p@.subrange(0, 8) == seq![MAGIC, VERSION, msg_type, 0u8] + le_u32(seq),
            forall|j: int| 0 <= j < i ==> p@[8 + j] == payload@[j],
            forall|j: int| 8 + i <= j < 64 ==> p@[j] == 0u8,
        decreases payload@.len() - i,
    {
        p[HEADER_SIZE + i] = payload[i];
        proof {
            assert(p@.subrange(0, 8) =~= seq![MAGIC, VERSION, msg_type, 0u8] + le_u32(seq));
        }
        i = i + 1;
    }
    proof {
        let f = framed(msg_type, seq, payload@);
        assert forall|j: int| 0 <= j < 64 implies p@[j] == f[j] by {
            if j < 8 {
                assert(p@[j] == p@.subrange(0, 8)[j]);
            }
        }
        assert(p@ =~= f);
    }
    p
}

// ── MSG_VIEW ──────────────────────────────────────────────────────

/// A node's byte in MSG_VIEW.
pub open spec fn node_byte(node: Node) -> u8 {
    match node {
        Node::Pc => 0x01,
        Node::Mac => 0x02,
    }
}

/// The node a MSG_VIEW byte names, if any.
pub open spec fn byte_node(code: u8) -> Option<Node> {
    if code == 0x01 {
        Some(Node::Pc)
    } else if code == 0x02 {
        Some(Node::Mac)
    } else {
        None
    }
}

/// A holder's byte in MSG_VIEW: 0 for split mode.
pub open spec fn holder_byte(holder: Holder) -> u8 {
    match holder {
        Holder::Split => 0x00,
        Holder::At(node) => node_byte(node),
    }
}

/// MSG_VIEW payload: epoch, decider, holder, then 1 and the entry height
/// after an edge switch, or zeros.
pub open spec fn view_payload(view: View, entry: Option<Entry>) -> Seq<u8> {
    le_u32(view.epoch) + seq![node_byte(view.decider), holder_byte(view.holder)] + match entry {
        Some(e) => seq![0x01u8] + le_u16(e.height),
        None => seq![0u8, 0u8, 0u8],
    }
}

/// The MSG_VIEW layout: the epoch in four bytes, least significant first;
/// the decider (1 the PC, 2 the Mac); the holder (0 split mode, else as the
/// decider); then 1 and the entry height in two bytes, least significant
/// first, after an edge switch, or three zeros.
pub proof fn law_view_layout(view: View, entry: Option<Entry>)
    ensures
        ({
            let p = view_payload(view, entry);
            &&& p.len() == 9
            &&& p[0] + 256 * p[1] + 65536 * p[2] + 16777216 * p[3] == view.epoch
            &&& p[4] == (if view.decider == Node::Pc {
                1u8
            } else {
                2u8
            })
            &&& p[5] == (match view.holder {
                Holder::Split => 0u8,
                Holder::At(Node::Pc) => 1u8,
                Holder::At(Node::Mac) => 2u8,
            })
            &&& match entry {
                Some(e) => p[6] == 1 && p[7] + 256 * p[8] == e.height,
                None => p[6] == 0 && p[7] == 0 && p[8] == 0,
            }
        }),
{
    let p = view_payload(view, entry);
    assert(p.subrange(0, 4) =~= le_u32(view.epoch));
    lemma_le_u32_round_trip(view.epoch, p, 0);
    if let Some(e) = entry {
        assert(p.subrange(7, 9) =~= le_u16(e.height));
        lemma_le_u16_round_trip(e.height, p, 7);
    }
}

/// What a packet says as a MSG_VIEW: `None` for any other packet, or one
/// that makes no sense (an unknown node, an unknown entry flag).
pub open spec fn view_in(p: Seq<u8>) -> Option<(View, Option<Entry>)> {
    let decider = byte_node(p[12]);
    let holder = if p[13] == 0 {
        Some(Holder::Split)
    } else {
        match byte_node(p[13]) {
            Some(node) => Some(Holder::At(node)),
            None => None,
        }
    };
    let entry = if p[14] == 0 {
        Some(None)
    } else if p[14] == 1 {
        Some(Some(Entry { height: u16_le(p, 15) }))
    } else {
        None
    };
    if p[2] != msg::VIEW {
        None
    } else {
        match (decider, holder, entry) {
            (Some(decider), Some(holder), Some(entry)) => Some(
                (View { epoch: u32_le(p, 8), decider, holder }, entry),
            ),
            _ => None,
        }
    }
}

fn node_code(node: Node) -> (r: u8)
    ensures
        r == node_byte(node),
{
    match node {
        Node::Pc => 0x01,
        Node::Mac => 0x02,
    }
}

fn code_node(code: u8) -> (r: Option<Node>)
    ensures
        r == byte_node(code),
{
    match code {
        0x01 => Some(Node::Pc),
        0x02 => Some(Node::Mac),
        _ => None,
    }
}

/// MSG_VIEW payload: epoch, decider, holder, and the entry height of an
/// edge switch.
pub fn encode_view(view: View, entry: Option<Entry>) -> (p: [u8; 9])
    ensures
        p@ == view_payload(view, entry),
{
    let mut p: [u8; 9] = [0u8; 9];
    let epoch = u32_bytes(view.epoch);
    p[0] = epoch[0];
    p[1] = epoch[1];
    p[2] = epoch[2];
    p[3] = epoch[3];
    p[4] = node_code(view.decider);
    p[5] = match view.holder {
        Holder::Split => 0x00,
        Holder::At(node) => node_code(node),
    };
    if let Some(entry) = entry {
        let height = u16_bytes(entry.height);
        p[6] = 0x01;
        p[7] = height[0];
        p[8] = height[1];
    }
    assert(p@ =~= view_payload(view, entry));
    p
}

/// Reads a MSG_VIEW packet; `None` for any other packet, or one that makes
/// no sense.
pub fn decode_view(packet: &[u8; PACKET_SIZE]) -> (r: Option<(View, Option<Entry>)>)
    ensures
        r == view_in(packet@),
{
    if packet[2] != msg::VIEW {
        return None;
    }
    let epoch = u32_at(packet, HEADER_SIZE);
    let decider = match code_node(packet[HEADER_SIZE + 4]) {
        Some(node) => node,
        None => return None,
    };
    let holder = match packet[HEADER_SIZE + 5] {
        0x00 => Holder::Split,
        code => match code_node(code) {
            Some(node) => Holder::At(node),
            None => return None,
        },
    };
    let entry = match packet[HEADER_SIZE + 6] {
        0x00 => None,
        0x01 => Some(Entry { height: u16_at(packet, HEADER_SIZE + 7) }),
        _ => return None,
    };
    Some((View { epoch, decider, holder }, entry))
}

/// A view sent in a packet is read back as it was sent, whatever the
/// packet's sequence number.
pub proof fn law_views_survive_a_round_trip(view: View, entry: Option<Entry>, seq: u32)
    ensures
        view_in(framed(msg::VIEW, seq, view_payload(view, entry))) == Some((view, entry)),
{
    let p = framed(msg::VIEW, seq, view_payload(view, entry));
    let payload = view_payload(view, entry);
    assert(p.subrange(8, 12) =~= le_u32(view.epoch));
    lemma_le_u32_round_trip(view.epoch, p, 8);
    assert(p[12] == node_byte(view.decider));
    assert(p[13] == holder_byte(view.holder));
    match entry {
        Some(e) => {
            assert(p[14] == 1);
            assert(p.subrange(15, 17) =~= le_u16(e.height));
            lemma_le_u16_round_trip(e.height, p, 15);
        },
        None => {
            assert(p[14] == 0);
        },
    }
}

// ── MSG_DAEMON_STATUS ─────────────────────────────────────────────

/// What the board reports to its daemon.
#[derive(Debug, Clone, Copy, PartialEq, Eq)]
pub enum Status {
    LinkStats(LinkStats),
    LinkChanged(bool),
    GateClosed(u8),
    /// A status this daemon does not use.
    Other(u8),
}

/// A board's link counters since it booted (MSG_DAEMON_STATUS 0x03).
#[derive(Debug, Clone, Copy, Default, PartialEq, Eq)]
pub struct LinkStats {
    pub link_up: bool,
    /// Radio TX rate (ESP-IDF `wifi_phy_rate_t`), see [`phy_rate_name`].
    pub phy_rate: u8,
    pub session: u32,
    pub host_received: u32,
    pub host_dropped: u32,
    pub radio_sent: u32,
    pub radio_retransmits: u32,
    pub radio_gave_up: u32,
    pub radio_received: u32,
    pub radio_rx_overflow: u32,
    pub auth_failures: u32,
    pub replays_dropped: u32,
    pub frames_acked: u32,
    pub frames_failed: u32,
    pub hid_stalls: u16,
    pub hid_mouse_dropped: u16,
}

#[derive(Debug, Clone, Copy, PartialEq, Eq)]
pub enum ParseError {
    NotStatus,
    NotLinkStats,
    /// The board speaks a different LinkStats layout: firmware and daemon
    /// are out of sync, so the numbers would be misread.
    WrongLayout(u8),
}

/// The link counters a packet carries, field by field in the board's
/// order (little-endian), or why it carries none.
pub open spec fn link_stats_in(p: Seq<u8>) -> Result<LinkStats, ParseError> {
    if p[2] != msg::DAEMON_STATUS || p[8] != STATUS_LINK_STATS {
        Err(ParseError::NotLinkStats)
    } else if p[9] != LINK_STATS_LAYOUT {
        Err(ParseError::WrongLayout(p[9]))
    } else {
        Ok(
            LinkStats {
                link_up: p[10] != 0,
                phy_rate: p[11],
                session: u32_le(p, 12),
                host_received: u32_le(p, 16),
                host_dropped: u32_le(p, 20),
                radio_sent: u32_le(p, 24),
                radio_retransmits: u32_le(p, 28),
                radio_gave_up: u32_le(p, 32),
                radio_received: u32_le(p, 36),
                radio_rx_overflow: u32_le(p, 40),
                auth_failures: u32_le(p, 44),
                replays_dropped: u32_le(p, 48),
                frames_acked: u32_le(p, 52),
                frames_failed: u32_le(p, 56),
                hid_stalls: u16_le(p, 60),
                hid_mouse_dropped: u16_le(p, 62),
            },
        )
    }
}

/// What a packet reports as a MSG_DAEMON_STATUS, by its sub-status byte.
pub open spec fn status_in(p: Seq<u8>) -> Result<Status, ParseError> {
    if p[2] != msg::DAEMON_STATUS {
        Err(ParseError::NotStatus)
    } else if p[8] == STATUS_LINK_STATS {
        match link_stats_in(p) {
            Ok(s) => Ok(Status::LinkStats(s)),
            Err(e) => Err(e),
        }
    } else if p[8] == STATUS_LINK_CHANGED {
        Ok(Status::LinkChanged(p[9] != 0))
    } else if p[8] == STATUS_GATE_CLOSED {
        Ok(Status::GateClosed(p[9]))
    } else {
        Ok(Status::Other(p[8]))
    }
}

impl Status {
    /// Parses a MSG_DAEMON_STATUS packet.
    pub fn parse(packet: &[u8; PACKET_SIZE]) -> (r: Result<Status, ParseError>)
        ensures
            r == status_in(packet@),
    {
        if packet[2] != msg::DAEMON_STATUS {
            return Err(ParseError::NotStatus);
        }
        let sub = packet[HEADER_SIZE];
        if sub == STATUS_LINK_STATS {
            match LinkStats::parse(packet) {
                Ok(s) => Ok(Status::LinkStats(s)),
                Err(e) => Err(e),
            }
        } else if sub == STATUS_LINK_CHANGED {
            Ok(Status::LinkChanged(packet[HEADER_SIZE + 1] != 0))
        } else if sub == STATUS_GATE_CLOSED {
            Ok(Status::GateClosed(packet[HEADER_SIZE + 1]))
        } else {
            Ok(Status::Other(sub))
        }
    }
}

impl LinkStats {
    /// Parses a MSG_DAEMON_STATUS packet carrying link statistics.
    pub fn parse(packet: &[u8; PACKET_SIZE]) -> (r: Result<LinkStats, ParseError>)
        ensures
            r == link_stats_in(packet@),
    {
        if packet[2] != msg::DAEMON_STATUS || packet[HEADER_SIZE] != STATUS_LINK_STATS {
            return Err(ParseError::NotLinkStats);
        }
        if packet[HEADER_SIZE + 1] != LINK_STATS_LAYOUT {
            return Err(ParseError::WrongLayout(packet[HEADER_SIZE + 1]));
        }
        // Little-endian fields, in the board's LinkStats order.
        Ok(
            LinkStats {
                link_up: packet[10] != 0,
                phy_rate: packet[11],
                session: u32_at(packet, 12),
                host_received: u32_at(packet, 16),
                host_dropped: u32_at(packet, 20),
                radio_sent: u32_at(packet, 24),
                radio_retransmits: u32_at(packet, 28),
                radio_gave_up: u32_at(packet, 32),
                radio_received: u32_at(packet, 36),
                radio_rx_overflow: u32_at(packet, 40),
                auth_failures: u32_at(packet, 44),
                replays_dropped: u32_at(packet, 48),
                frames_acked: u32_at(packet, 52),
                frames_failed: u32_at(packet, 56),
                hid_stalls: u16_at(packet, 60),
                hid_mouse_dropped: u16_at(packet, 62),
            },
        )
    }
}

/// Human-readable name of an ESP-NOW PHY rate code.
pub open spec fn phy_rate_label(code: u8) -> Seq<char> {
    if code == 0x00 {
        "1M"@
    } else if code == 0x01 {
        "2M"@
    } else if code == 0x02 {
        "5.5M"@
    } else if code == 0x03 {
        "11M"@
    } else if code == 0x0B {
        "6M"@
    } else if code == 0x0F {
        "9M"@
    } else if code == 0x0A {
        "12M"@
    } else if code == 0x0E {
        "18M"@
    } else if code == 0x09 {
        "24M"@
    } else if code == 0x0D {
        "36M"@
    } else if code == 0x08 {
        "48M"@
    } else if code == 0x0C {
        "54M"@
    } else {
        "?"@
    }
}

/// Human-readable name of an ESP-NOW PHY rate code.
pub fn phy_rate_name(code: u8) -> (r: &'static str)
    ensures
        r@ == phy_rate_label(code),
{
    match code {
        0x00 => "1M",
        0x01 => "2M",
        0x02 => "5.5M",
        0x03 => "11M",
        0x0B => "6M",
        0x0F => "9M",
        0x0A => "12M",
        0x0E => "18M",
        0x09 => "24M",
        0x0D => "36M",
        0x08 => "48M",
        0x0C => "54M",
        _ => "?",
    }
}

} // verus!
