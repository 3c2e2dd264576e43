//! Message types used by the daemon (see the protocol description for
//! the full list).

use vstd::prelude::*;

verus! {

pub const MOUSE_MOVE: u8 = 0x01;
pub const MOUSE_SCROLL: u8 = 0x02;
pub const KEY_DOWN: u8 = 0x03;
pub const KEY_UP: u8 = 0x04;
/// Keys and buttons still held that were forwarded (repairs lost releases).
pub const KEY_STATE: u8 = 0x07;
/// A daemon's view of the focus, relayed by the boards to the other daemon.
pub const VIEW: u8 = 0x10;
/// The pointer handoff between the daemons (the number the view uses now),
/// and its answer.
pub const HANDOFF: u8 = 0x10;
pub const HANDOFF_ACK: u8 = 0x11;
/// Which screen edges the pointer touches: a number of the daemons' own,
/// next to the handoff's; the protocol description lists none.
pub const EDGE_CONTACT: u8 = 0x12;
pub const DAEMON_CMD: u8 = 0x40;
pub const DAEMON_STATUS: u8 = 0x41;

} // verus!
