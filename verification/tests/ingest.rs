use macos_trackpad_companion::ingest::{
    Admit, PeerAddr, PeerDecision, PeerGate, PeerId, PeerTransport, UdpIngest, PEER_QUARANTINE_NS,
    REPLAY_WINDOW_NS,
};

const MS: u64 = 1_000_000;

fn peer(port: u16) -> PeerAddr {
    PeerAddr { v6: false, ip: 0x7f00_0001, port, flowinfo: 0, scope_id: 0 }
}

fn endpoint(transport: PeerTransport, port: u16) -> PeerId {
    PeerId { transport, addr: peer(port) }
}

#[test]
fn udp_sequences_are_scoped_to_peer_and_reordering_is_not_a_gap() {
    let mut ingest = UdpIngest::new();
    let a = peer(1001);
    let b = peer(1002);
    let t = 10 * MS;
    assert_eq!(
        ingest.admit_at(a, 10, t),
        Admit::Fresh { lost_since_last: None, sender_restarted: false }
    );
    assert_eq!(
        ingest.admit_at(b, 900_000, t + 1),
        Admit::Fresh { lost_since_last: None, sender_restarted: false }
    );
    assert_eq!(
        ingest.admit_at(a, 12, t + 2),
        Admit::Fresh { lost_since_last: Some(1), sender_restarted: false }
    );
    assert_eq!(ingest.admit_at(a, 11, t + 3), Admit::Stale);
    assert_eq!(
        ingest.admit_at(a, 13, t + 4),
        Admit::Fresh { lost_since_last: None, sender_restarted: false }
    );
    assert_eq!(ingest.admit_at(a, 13, t + 5), Admit::Replay);
}

#[test]
fn large_backward_jump_is_reported_as_sender_restart() {
    let mut ingest = UdpIngest::new();
    let a = peer(1001);
    assert_eq!(
        ingest.admit_at(a, 2_000_000, 0),
        Admit::Fresh { lost_since_last: None, sender_restarted: false }
    );
    assert_eq!(
        ingest.admit_at(a, 1, 1),
        Admit::Fresh { lost_since_last: None, sender_restarted: true }
    );
}

#[test]
fn stale_udp_frame_is_dropped_before_scan_clock() {
    let mut ingest = UdpIngest::new();
    let a = peer(1001);
    assert!(matches!(ingest.admit_at(a, 10, 0), Admit::Fresh { .. }));
    assert_eq!(ingest.admit_at(a, 9, MS), Admit::Stale);
}

#[test]
fn the_clock_driven_filter_admits_a_first_frame() {
    let mut ingest = UdpIngest::new();
    assert_eq!(
        ingest.admit_now(peer(7), 5),
        Admit::Fresh { lost_since_last: None, sender_restarted: false }
    );
    assert_eq!(ingest.admit_now(peer(7), 5), Admit::Replay);
}

#[test]
fn repeated_number_after_the_replay_window_is_a_fresh_session() {
    let mut ingest = UdpIngest::new();
    let a = peer(1001);
    assert!(matches!(ingest.admit_at(a, 3, 0), Admit::Fresh { .. }));
    assert_eq!(ingest.admit_at(a, 3, REPLAY_WINDOW_NS - 1), Admit::Replay);
    assert_eq!(
        ingest.admit_at(a, 3, 2 * REPLAY_WINDOW_NS),
        Admit::Fresh { lost_since_last: None, sender_restarted: false }
    );
}

#[test]
fn gaps_are_not_reported_after_an_idle_period() {
    let mut ingest = UdpIngest::new();
    let a = peer(1001);
    assert!(matches!(ingest.admit_at(a, 1, 0), Admit::Fresh { .. }));
    assert_eq!(
        ingest.admit_at(a, 50, 3_000 * MS),
        Admit::Fresh { lost_since_last: None, sender_restarted: false }
    );
}

#[test]
fn peer_switch_is_reported_once_and_old_source_is_quarantined() {
    let mut gate = PeerGate::new();
    let t0 = 5_000 * MS;
    let udp = endpoint(PeerTransport::Udp, 1001);
    let ws = endpoint(PeerTransport::WebSocket, 1002);
    assert_eq!(gate.observe(udp, t0), PeerDecision::Accept { switched_from: None });
    assert_eq!(gate.observe(udp, t0 + 10 * MS), PeerDecision::Accept { switched_from: None });
    assert_eq!(gate.observe(ws, t0 + 20 * MS), PeerDecision::Accept { switched_from: Some(udp) });
    assert_eq!(gate.observe(udp, t0 + 30 * MS), PeerDecision::IgnoreRetired);
    assert_eq!(
        gate.observe(udp, t0 + PEER_QUARANTINE_NS + 21 * MS),
        PeerDecision::Accept { switched_from: Some(ws) }
    );
}

#[test]
fn transport_is_part_of_peer_identity() {
    let mut gate = PeerGate::new();
    let t0 = 5_000 * MS;
    let udp = endpoint(PeerTransport::Udp, 1001);
    let ws = endpoint(PeerTransport::WebSocket, 1001);
    assert_eq!(gate.observe(udp, t0), PeerDecision::Accept { switched_from: None });
    assert_eq!(gate.observe(ws, t0 + MS), PeerDecision::Accept { switched_from: Some(udp) });
    assert_eq!(gate.active(), Some(ws));
}
