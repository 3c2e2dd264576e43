use omni_kvm::focus::{Entry, Holder, Node, View};
use omni_kvm::protocol::{
    decode_view, encode_view, msg, packet, phy_rate_name, LinkStats, ParseError, Status, LINK_STATS_LAYOUT, MAGIC,
    STATUS_GATE_CLOSED, STATUS_LINK_CHANGED, STATUS_LINK_STATS, VERSION,
};

#[test]
fn packet_has_header_and_zero_padding() {
    let p = packet(msg::KEY_DOWN, 0x0102_0304, &[0x04, 0x02]);
    assert_eq!(&p[..8], &[MAGIC, VERSION, msg::KEY_DOWN, 0, 0x04, 0x03, 0x02, 0x01]);
    assert_eq!(&p[8..10], &[0x04, 0x02]);
    assert!(p[10..].iter().all(|&b| b == 0));
}

#[test]
fn views_survive_a_round_trip() {
    let views = [
        (View { epoch: 7, decider: Node::Pc, holder: Holder::At(Node::Mac) }, Some(Entry { height: 40_000 })),
        (View { epoch: u32::MAX, decider: Node::Mac, holder: Holder::Split }, None),
        (View { epoch: 0, decider: Node::Mac, holder: Holder::At(Node::Pc) }, Some(Entry { height: 0 })),
    ];
    for (view, entry) in views {
        let p = packet(msg::VIEW, 1, &encode_view(view, entry));
        assert_eq!(decode_view(&p), Some((view, entry)));
    }
    // Layout: epoch @8, decider @12, holder @13, entry @14, height @15.
    let p = packet(msg::VIEW, 1, &encode_view(views[0].0, views[0].1));
    assert_eq!(&p[8..17], &[7, 0, 0, 0, 0x01, 0x02, 0x01, 0x40, 0x9C]);
    assert_eq!(decode_view(&packet(msg::KEY_DOWN, 1, &[4, 0])), None);
    assert_eq!(decode_view(&packet(msg::VIEW, 1, &[0, 0, 0, 0, 0x03, 0, 0])), None, "unknown decider");
}

#[test]
fn parses_statuses() {
    assert_eq!(Status::parse(&packet(msg::DAEMON_STATUS, 0, &[STATUS_LINK_CHANGED, 1])), Ok(Status::LinkChanged(true)));
    assert_eq!(Status::parse(&packet(msg::DAEMON_STATUS, 0, &[STATUS_LINK_CHANGED, 0])), Ok(Status::LinkChanged(false)));
    assert_eq!(Status::parse(&packet(msg::DAEMON_STATUS, 0, &[STATUS_GATE_CLOSED, 42])), Ok(Status::GateClosed(42)));
    assert_eq!(Status::parse(&packet(msg::DAEMON_STATUS, 0, &[0x02])), Ok(Status::Other(0x02)));
    assert_eq!(Status::parse(&packet(msg::VIEW, 0, &[])), Err(ParseError::NotStatus));
}

#[test]
fn parses_link_stats() {
    let mut payload = vec![STATUS_LINK_STATS, LINK_STATS_LAYOUT, 1, 0x09];
    for v in 1u32..=12 {
        payload.extend_from_slice(&v.to_le_bytes());
    }
    payload.extend_from_slice(&13u16.to_le_bytes());
    payload.extend_from_slice(&14u16.to_le_bytes());
    assert_eq!(payload.len(), 56, "LinkStats is 56 bytes");
    let Ok(Status::LinkStats(s)) = Status::parse(&packet(msg::DAEMON_STATUS, 0, &payload)) else {
        panic!("expected link stats");
    };
    assert!(s.link_up);
    assert_eq!(phy_rate_name(s.phy_rate), "24M");
    assert_eq!((s.session, s.host_received, s.radio_retransmits, s.frames_failed), (1, 2, 5, 12));
    assert_eq!((s.hid_stalls, s.hid_mouse_dropped), (13, 14));
}

#[test]
fn rejects_other_layouts() {
    let p = packet(msg::DAEMON_STATUS, 0, &[STATUS_LINK_STATS, 2, 1]);
    assert_eq!(Status::parse(&p), Err(ParseError::WrongLayout(2)));
}

#[test]
fn link_stats_need_a_link_stats_packet() {
    assert_eq!(LinkStats::parse(&packet(msg::DAEMON_STATUS, 0, &[STATUS_LINK_CHANGED, 1])), Err(ParseError::NotLinkStats));
    assert_eq!(LinkStats::parse(&packet(msg::VIEW, 0, &[STATUS_LINK_STATS])), Err(ParseError::NotLinkStats));
}

#[test]
fn phy_rates_have_names() {
    assert_eq!(phy_rate_name(0x00), "1M");
    assert_eq!(phy_rate_name(0x02), "5.5M");
    assert_eq!(phy_rate_name(0x0C), "54M");
    assert_eq!(phy_rate_name(0x04), "?");
}

#[test]
fn high_epochs_and_heights_keep_their_bytes() {
    let view = View { epoch: 0xDEAD_BEEF, decider: Node::Pc, holder: Holder::Split };
    let p = encode_view(view, Some(Entry { height: 0xFFFF }));
    assert_eq!(p, [0xEF, 0xBE, 0xAD, 0xDE, 0x01, 0x00, 0x01, 0xFF, 0xFF]);
}
