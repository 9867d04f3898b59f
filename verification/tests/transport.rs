use macos_trackpad_companion::ingest::{PeerAddr, PeerId, PeerTransport, UdpIngest, REPLAY_WINDOW_NS};
use macos_trackpad_companion::proto::{Contact, DecodeError, Frame};
use macos_trackpad_companion::transport::{
    handle_datagram, pong_frame, probe_ack_bytes, request_raw_path, route_request, unmask, ws_action,
    ws_header, ws_payload_len, PumpAction, PumpEvent, PumpState, Route, UdpOutcome, WsAction,
    WsFrameError, WsLength, IDLE_LIFT_AFTER_NS,
};

const MS: u64 = 1_000_000;

fn addr(port: u16) -> PeerAddr {
    PeerAddr { v6: false, ip: 0x7f00_0001, port, flowinfo: 0, scope_id: 0 }
}

fn udp(port: u16) -> PeerId {
    PeerId { transport: PeerTransport::Udp, addr: addr(port) }
}

fn envelope(token: &[u8], payload: &[u8]) -> Vec<u8> {
    let mut out = Vec::from(*b"ATK1");
    out.extend_from_slice(&(token.len() as u16).to_le_bytes());
    out.extend_from_slice(token);
    out.extend_from_slice(payload);
    out
}

fn touch(seq: u32, down: bool) -> Frame {
    let contacts = if down {
        vec![Contact { id: 1, x_bits: 10.0f32.to_bits(), y_bits: 5.0f32.to_bits(), tip: true, confidence: true }]
    } else {
        Vec::new()
    };
    Frame { seq, scan_time_100us: 100, button: false, contacts }
}

#[test]
fn health_endpoint_requires_and_accepts_configured_token() {
    let open = route_request("GET /health HTTP/1.1\r\nHost: localhost\r\n\r\n", None);
    assert_eq!(open, Route::Health);

    let denied = route_request("GET /health HTTP/1.1\r\nHost: localhost\r\n\r\n", Some("s3cret"));
    assert_eq!(denied, Route::Unauthorized);

    let accepted = route_request(
        "GET /health HTTP/1.1\r\nHost: localhost\r\nAuthorization: Bearer s3cret\r\n\r\n",
        Some("s3cret"),
    );
    assert_eq!(accepted, Route::Health);
}

#[test]
fn web_page_requires_configured_token() {
    let denied = route_request("GET / HTTP/1.1\r\nHost: localhost\r\n\r\n", Some("s3cret"));
    assert_eq!(denied, Route::Unauthorized);

    let accepted = route_request("GET /?token=s3cret HTTP/1.1\r\nHost: localhost\r\n\r\n", Some("s3cret"));
    assert_eq!(accepted, Route::Page);
}

#[test]
fn routes_cover_methods_pages_and_upgrades() {
    assert_eq!(route_request("POST /health HTTP/1.1\r\n\r\n", None), Route::MethodNotAllowed);
    assert_eq!(route_request("GET /nowhere HTTP/1.1\r\n\r\n", None), Route::NotFound);
    assert_eq!(route_request("GET /Touchpad.HTML HTTP/1.1\r\n\r\n", None), Route::Page);
    assert_eq!(route_request("GET /tester HTTP/1.1\r\n\r\n", None), Route::Tester);
    assert_eq!(route_request("GET /health/ HTTP/1.1\r\n\r\n", None), Route::Health);
    let ws = "GET /ws?token=abc HTTP/1.1\r\nUpgrade: WebSocket\r\nConnection: Upgrade\r\n\r\n";
    assert_eq!(route_request(ws, Some("abc")), Route::WebSocket);
    assert_eq!(route_request(ws, Some("xyz")), Route::Unauthorized);
    // Without the upgrade header the WebSocket path is no page.
    assert_eq!(route_request("GET /ws HTTP/1.1\r\n\r\n", None), Route::NotFound);
}

#[test]
fn raw_path_is_the_second_token_of_the_request_line() {
    assert_eq!(request_raw_path(b"GET /ws?token=a%20b HTTP/1.1\r\nHost: x\r\n\r\n"), b"/ws?token=a%20b".to_vec());
    assert_eq!(request_raw_path(b"GET"), b"/".to_vec());
}

#[test]
fn probes_are_answered_only_when_authorized() {
    let mut ingest = UdpIngest::new();
    assert_eq!(probe_ack_bytes(), b"ATA1".to_vec());
    assert_eq!(handle_datagram(&mut ingest, addr(1), b"ATQ1", None, 0), UdpOutcome::ProbeAcknowledged);
    assert_eq!(handle_datagram(&mut ingest, addr(1), b"ATQ1", Some("tok"), 0), UdpOutcome::ProbeIgnored);
    let mut probe = Vec::from(*b"ATQ1");
    probe.extend_from_slice(&envelope(b"tok", b""));
    assert_eq!(handle_datagram(&mut ingest, addr(1), &probe, Some("tok"), 0), UdpOutcome::ProbeAcknowledged);
    assert_eq!(handle_datagram(&mut ingest, addr(1), &probe, Some("other"), 0), UdpOutcome::ProbeIgnored);
}

#[test]
fn datagrams_are_authenticated_decoded_and_filtered() {
    let mut ingest = UdpIngest::new();
    let lifted = touch(5, false).encode();
    assert_eq!(handle_datagram(&mut ingest, addr(7), &lifted, Some("tok"), 0), UdpOutcome::Unauthenticated);
    assert_eq!(
        handle_datagram(&mut ingest, addr(7), &envelope(b"tok", b"XXXX"), Some("tok"), 0),
        UdpOutcome::Malformed(DecodeError::TooShort)
    );
    let first = handle_datagram(&mut ingest, addr(7), &envelope(b"tok", &lifted), Some("tok"), 10 * MS);
    assert_eq!(first, UdpOutcome::Deliver { restarted: false, lost: None, frame: touch(5, false) });
    // The retransmitted all-lifted frame is delivered again.
    let again = handle_datagram(&mut ingest, addr(7), &envelope(b"tok", &lifted), Some("tok"), 11 * MS);
    assert_eq!(again, UdpOutcome::ReplayedLift(touch(5, false)));
    // A repeated motion frame is dropped.
    let moving = touch(6, true).encode();
    assert!(matches!(handle_datagram(&mut ingest, addr(7), &moving, None, 12 * MS), UdpOutcome::Deliver { .. }));
    assert_eq!(handle_datagram(&mut ingest, addr(7), &moving, None, 13 * MS), UdpOutcome::Dropped);
    // Past the replay window the same number starts afresh.
    let later = 13 * MS + REPLAY_WINDOW_NS + 1;
    assert!(matches!(handle_datagram(&mut ingest, addr(7), &moving, None, later), UdpOutcome::Deliver { .. }));
}

#[test]
fn websocket_headers_lengths_and_masks() {
    let h = ws_header(0x82, 0x85);
    assert!(h.fin && h.masked);
    assert_eq!(h.opcode, 2);
    assert_eq!(h.length, WsLength::Short(5));
    assert_eq!(ws_payload_len(h, &[]), Ok(5));
    assert_eq!(ws_header(0x81, 0xfe).length, WsLength::Extended16);
    assert_eq!(ws_header(0x81, 0xff).length, WsLength::Extended64);
    assert_eq!(ws_payload_len(ws_header(0x82, 0xfe), &[0x01, 0x00]), Ok(256));
    assert_eq!(
        ws_payload_len(ws_header(0x82, 0xfe), &[0x10, 0x01]),
        Err(WsFrameError::Unsupported { len: 4097, masked: true, fin: true })
    );
    assert_eq!(
        ws_payload_len(ws_header(0x82, 0xff), &[0, 0, 0, 0, 0, 1, 0, 0]),
        Err(WsFrameError::TooLarge { len: 65536 })
    );
    assert_eq!(
        ws_payload_len(ws_header(0x02, 0x85), &[]),
        Err(WsFrameError::Unsupported { len: 5, masked: true, fin: false })
    );
    assert_eq!(
        ws_payload_len(ws_header(0x82, 0x05), &[]),
        Err(WsFrameError::Unsupported { len: 5, masked: false, fin: true })
    );
    let key = [0x37u8, 0xfa, 0x21, 0x3d];
    let mut payload = vec![0x7fu8, 0x9f, 0x4d, 0x51, 0x58];
    unmask(&mut payload, &key);
    assert_eq!(payload, b"Hello".to_vec());
    assert_eq!(ws_action(0x8), WsAction::Close);
    assert_eq!(ws_action(0x9), WsAction::Pong);
    assert_eq!(ws_action(0x2), WsAction::Binary);
    assert_eq!(ws_action(0x1), WsAction::Ignore);
    assert_eq!(pong_frame(), vec![0x8a, 0x00]);
}

#[test]
fn silence_with_contacts_down_cancels_the_touch() {
    let mut pump = PumpState::new(0);
    let a = udp(1);
    assert_eq!(pump.step(PumpEvent::Frame { peer: a, contacts_down: true }, 10 * MS), vec![PumpAction::Deliver]);
    assert_eq!(pump.step(PumpEvent::Timeout, 20 * MS), vec![PumpAction::IdleTick]);
    let late = 10 * MS + IDLE_LIFT_AFTER_NS + 1;
    assert_eq!(
        pump.step(PumpEvent::Timeout, late),
        vec![PumpAction::IdleTick, PumpAction::CancelTouch, PumpAction::ResetClock]
    );
    // Once cancelled, further silence changes nothing.
    assert_eq!(pump.step(PumpEvent::Timeout, late + 10 * MS), vec![PumpAction::IdleTick]);
}

#[test]
fn takeover_cancels_the_old_touch_and_quarantines_the_old_peer() {
    let mut pump = PumpState::new(0);
    let a = udp(1);
    let b = udp(2);
    pump.step(PumpEvent::Frame { peer: a, contacts_down: true }, MS);
    assert_eq!(
        pump.step(PumpEvent::Frame { peer: b, contacts_down: false }, 2 * MS),
        vec![PumpAction::PeerChanged { from: a }, PumpAction::CancelTouch, PumpAction::ResetClock, PumpAction::Deliver]
    );
    assert_eq!(pump.step(PumpEvent::Frame { peer: a, contacts_down: true }, 3 * MS), Vec::new());
    assert_eq!(pump.step(PumpEvent::Gap { peer: a, lost: 3 }, 4 * MS), Vec::new());
    assert_eq!(pump.step(PumpEvent::Gap { peer: b, lost: 3 }, 4 * MS), vec![PumpAction::NoteGap(3)]);
    assert_eq!(pump.step(PumpEvent::Restart { peer: b }, 5 * MS), vec![PumpAction::ResetClock]);
}

#[test]
fn restart_with_contacts_down_cancels_the_touch() {
    let mut pump = PumpState::new(0);
    let a = udp(1);
    pump.step(PumpEvent::Frame { peer: a, contacts_down: true }, MS);
    assert_eq!(
        pump.step(PumpEvent::Restart { peer: a }, 2 * MS),
        vec![PumpAction::CancelTouch, PumpAction::ResetClock]
    );
    assert_eq!(pump.step(PumpEvent::Timeout, 2 * MS + IDLE_LIFT_AFTER_NS + 1), vec![PumpAction::IdleTick]);
}
