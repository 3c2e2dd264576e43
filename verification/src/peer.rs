//! The other computer's daemon: the messages the two daemons exchange
//! (relayed by the boards) and what this daemon knows about the other
//! side.
//!
//! The daemon of the computer whose keyboard and mouse are in use decides
//! when the pointer changes screens. The other daemon helps: it places its
//! pointer where a handoff says, and reports when its pointer touches a
//! screen edge, so the first one can bring the pointer back.

use vstd::prelude::*;

use crate::protocol::{self, msg, PACKET_SIZE};

verus! {

/// Screen edges, as `MSG_HANDOFF` names the one the pointer left by.
pub const EDGE_RIGHT: u8 = 0x01;
pub const EDGE_LEFT: u8 = 0x02;

/// Bits of `MSG_EDGE_CONTACT`: which edges the pointer is touching.
pub const CONTACT_RIGHT: u8 = 1;
pub const CONTACT_LEFT: u8 = 2;
pub const CONTACT_TOP: u8 = 4;
pub const CONTACT_BOTTOM: u8 = 8;

/// The other daemon counts as running if heard from this recently (in
/// milliseconds). It sends `MSG_EDGE_CONTACT` at least once a second.
pub const DAEMON_TIMEOUT_MS: u64 = 3000;

#[derive(Debug, Clone, Copy, PartialEq, Eq)]
pub enum PeerMsg {
    /// "The pointer is now yours": it left the sender's screen by `edge`,
    /// at `position` along it (0..=65535, top to bottom). `id` tells a
    /// repeat apart from a new handoff.
    Handoff { edge: u8, id: u8, position: u16 },
    HandoffAck { id: u8, accepted: bool },
    /// "My pointer is touching these edges (`CONTACT_*` bits), at
    /// `position` along the left/right edge."
    EdgeContact { edges: u8, position: u16 },
}

/// Message type and payload of a message.
pub open spec fn encoded(m: PeerMsg) -> (u8, Seq<u8>) {
    match m {
        PeerMsg::Handoff { edge, id, position } => (
            msg::HANDOFF,
            seq![edge, id] + protocol::le_u16(position),
        ),
        PeerMsg::HandoffAck { id, accepted } => (
            msg::HANDOFF_ACK,
            seq![if accepted { 1u8 } else { 0u8 }, id],
        ),
        PeerMsg::EdgeContact { edges, position } => (
            msg::EDGE_CONTACT,
            seq![edges, 0u8] + protocol::le_u16(position),
        ),
    }
}

/// The message a relayed packet carries, if it is one of these.
pub open spec fn message_in(p: Seq<u8>) -> Option<PeerMsg> {
    if p[2] == msg::HANDOFF {
        Some(PeerMsg::Handoff { edge: p[8], id: p[9], position: protocol::u16_le(p, 10) })
    } else if p[2] == msg::HANDOFF_ACK {
        Some(PeerMsg::HandoffAck { accepted: p[8] != 0, id: p[9] })
    } else if p[2] == msg::EDGE_CONTACT {
        Some(PeerMsg::EdgeContact { edges: p[8], position: protocol::u16_le(p, 10) })
    } else {
        None
    }
}

fn le_u16_vec(x: u16) -> (r: (u8, u8))
    ensures
        seq![r.0, r.1] == protocol::le_u16(x),
{
    ((x % 256) as u8, (x / 256) as u8)
}

impl PeerMsg {
    /// Message type and payload.
    pub fn encode(&self) -> (r: (u8, Vec<u8>))
        ensures
            (r.0, r.1@) == encoded(*self),
    {
        match *self {
            PeerMsg::Handoff { edge, id, position } => {
                let (lo, hi) = le_u16_vec(position);
                let r = (msg::HANDOFF, vec![edge, id, lo, hi]);
                assert(r.1@ =~= encoded(*self).1);
                r
            },
            PeerMsg::HandoffAck { id, accepted } => {
                let a: u8 = if accepted {
                    1
                } else {
                    0
                };
                let r = (msg::HANDOFF_ACK, vec![a, id]);
                assert(r.1@ =~= encoded(*self).1);
                r
            },
            PeerMsg::EdgeContact { edges, position } => {
                let (lo, hi) = le_u16_vec(position);
                let r = (msg::EDGE_CONTACT, vec![edges, 0, lo, hi]);
                assert(r.1@ =~= encoded(*self).1);
                r
            },
        }
    }

    /// Reads a relayed packet, or `None` for other packets.
    pub fn decode(packet: &[u8; PACKET_SIZE]) -> (r: Option<PeerMsg>)
        ensures
            r == message_in(packet@),
    {
        let position = packet[10] as u16 + (packet[11] as u16) * 256;
        if packet[2] == msg::HANDOFF {
            Some(PeerMsg::Handoff { edge: packet[8], id: packet[9], position })
        } else if packet[2] == msg::HANDOFF_ACK {
            Some(PeerMsg::HandoffAck { accepted: packet[8] != 0, id: packet[9] })
        } else if packet[2] == msg::EDGE_CONTACT {
            Some(PeerMsg::EdgeContact { edges: packet[8], position })
        } else {
            None
        }
    }
}

/// A message sent in a packet is read back as it was sent, and fits the
/// 28 bytes of message data a radio packet carries.
pub proof fn law_messages_survive_a_round_trip(m: PeerMsg, seq: u32)
    ensures
        encoded(m).1.len() <= 28,
        message_in(protocol::framed(encoded(m).0, seq, encoded(m).1)) == Some(m),
{
    let (t, payload) = encoded(m);
    let p = protocol::framed(t, seq, payload);
    match m {
        PeerMsg::Handoff { edge, id, position } => {
            assert(p.subrange(10, 12) =~= protocol::le_u16(position));
            protocol::lemma_le_u16_round_trip(position, p, 10);
        },
        PeerMsg::HandoffAck { id, accepted } => {
            assert(p[8] == payload[0]);
        },
        PeerMsg::EdgeContact { edges, position } => {
            assert(p.subrange(10, 12) =~= protocol::le_u16(position));
            protocol::lemma_le_u16_round_trip(position, p, 10);
        },
    }
}

/// What this daemon knows about the other side.
pub struct Peer {
    link_up: bool,
    /// When a message from the other daemon last arrived (milliseconds on
    /// the caller's monotonic clock).
    heard_at: Option<u64>,
    contact_edges: u8,
    contact_position: u16,
}

impl Peer {
    pub closed spec fn link(self) -> bool {
        self.link_up
    }

    pub closed spec fn last_heard(self) -> Option<u64> {
        self.heard_at
    }

    pub closed spec fn edges(self) -> u8 {
        self.contact_edges
    }

    pub closed spec fn position(self) -> u16 {
        self.contact_position
    }

    /// Link down, never heard from, touching no edge.
    pub fn new() -> (r: Peer)
        ensures
            !r.link(),
            r.last_heard() is None,
            r.edges() == 0,
            r.position() == 0,
    {
        Peer { link_up: false, heard_at: None, contact_edges: 0, contact_position: 0 }
    }

    /// The radio link between the two boards.
    pub fn link_up(&self) -> (r: bool)
        ensures
            r == self.link(),
    {
        self.link_up
    }

    pub fn set_link_up(&mut self, up: bool)
        ensures
            final(self).link() == up,
            final(self).last_heard() == old(self).last_heard(),
            final(self).edges() == old(self).edges(),
            final(self).position() == old(self).position(),
    {
        self.link_up = up;
    }

    /// Records that a message from the other daemon arrived at `now`.
    pub fn heard(&mut self, now: u64)
        ensures
            final(self).last_heard() == Some(now),
            final(self).link() == old(self).link(),
            final(self).edges() == old(self).edges(),
            final(self).position() == old(self).position(),
    {
        self.heard_at = Some(now);
    }

    /// Is the other daemon running (not just its board) at `now`: link up,
    /// and heard from less than the timeout ago (a reading from before the
    /// last message counts as no time passed).
    pub fn daemon_alive(&self, now: u64) -> (r: bool)
        ensures
            r == (self.link() && match self.last_heard() {
                Some(t) => (if now >= t {
                    now - t
                } else {
                    0
                }) < DAEMON_TIMEOUT_MS,
                None => false,
            }),
    {
        self.link_up && match self.heard_at {
            Some(t) => now.saturating_sub(t) < DAEMON_TIMEOUT_MS,
            None => false,
        }
    }

    pub fn set_contact(&mut self, edges: u8, position: u16)
        ensures
            final(self).edges() == edges,
            final(self).position() == position,
            final(self).link() == old(self).link(),
            final(self).last_heard() == old(self).last_heard(),
    {
        self.contact_edges = edges;
        self.contact_position = position;
    }

    /// Where along the edge the other pointer touches `edge` (a
    /// `CONTACT_*` bit), if it does.
    pub fn touching(&self, edge: u8) -> (r: Option<u16>)
        ensures
            r == (if self.edges() & edge != 0 {
                Some(self.position())
            } else {
                None
            }),
    {
        if self.contact_edges & edge != 0 {
            Some(self.contact_position)
        } else {
            None
        }
    }
}

} // verus!
