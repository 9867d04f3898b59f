use macos_trackpad_companion::http::{authorized_http_request, percent_decode, query_param};
use macos_trackpad_companion::net::{authenticated_udp_payload, base64, content_type, reason_phrase, ws_handshake_key, ContentType};
use macos_trackpad_companion::config::{ListenAddress, Net};
use macos_trackpad_companion::net::{ListenIp, Server, Startup, StartupError};
use macos_trackpad_companion::proto::Frame;

#[test]
fn websocket_auth_accepts_bearer_header_or_encoded_query() {
    let header = "GET /ws HTTP/1.1\r\nAuthorization: Bearer s3cret\r\n\r\n";
    assert!(authorized_http_request(header, "/ws", Some("s3cret")));
    assert!(!authorized_http_request(header, "/ws", Some("wrong")));
    assert!(authorized_http_request(
        "GET /ws?token=s3cret HTTP/1.1\r\n\r\n",
        "/ws?token=s3cret",
        Some("s3cret")
    ));
    assert!(authorized_http_request(
        "GET /ws?token=s%33cret HTTP/1.1\r\n\r\n",
        "/ws?token=s%33cret",
        Some("s3cret")
    ));
    assert!(authorized_http_request("", "/ws", None));
}

#[test]
fn websocket_accept_matches_rfc6455_vector() {
    let request = "GET /chat HTTP/1.1\r\n".to_owned()
        + "Host: server.example.com\r\n"
        + "Upgrade: websocket\r\n"
        + "Connection: Upgrade\r\n"
        + "Sec-WebSocket-Key: dGhlIHNhbXBsZSBub25jZQ==\r\n\r\n";
    assert_eq!(ws_handshake_key(&request).as_deref(), Some("s3pPLMBiTxaQ9kYGzzhZRbK+xOo="));
}

#[test]
fn authenticated_udp_envelope_preserves_atp1_payload() {
    let frame = Frame { seq: 7, scan_time_100us: 123, button: false, contacts: Vec::new() };
    let encoded = frame.encode();
    assert_eq!(authenticated_udp_payload(&encoded, None), Some(encoded.as_slice()));

    let token = b"s3cret";
    let mut envelope = Vec::from(*b"ATK1");
    envelope.extend_from_slice(&(token.len() as u16).to_le_bytes());
    envelope.extend_from_slice(token);
    envelope.extend_from_slice(&encoded);
    assert_eq!(authenticated_udp_payload(&envelope, Some("s3cret")), Some(encoded.as_slice()));
    let mut empty = Vec::from(*b"ATK1");
    empty.extend_from_slice(&(token.len() as u16).to_le_bytes());
    empty.extend_from_slice(token);
    assert_eq!(authenticated_udp_payload(&empty, Some("s3cret")), Some(&[][..]));
    assert_eq!(authenticated_udp_payload(&envelope, Some("wrong")), None);
    assert_eq!(authenticated_udp_payload(&encoded, Some("s3cret")), None);
}

#[test]
fn base64_matches_known_vectors() {
    assert_eq!(base64(b""), "");
    assert_eq!(base64(b"f"), "Zg==");
    assert_eq!(base64(b"fo"), "Zm8=");
    assert_eq!(base64(b"foo"), "Zm9v");
    assert_eq!(base64(b"foobar"), "Zm9vYmFy");
}

#[test]
fn query_and_percent_decoding() {
    assert_eq!(query_param("/ws?a=1&token=abc", "token").as_deref(), Some("abc"));
    assert_eq!(query_param("/ws?a=1", "token"), None);
    assert_eq!(percent_decode("s%33cret").as_deref(), Some("s3cret"));
    assert_eq!(percent_decode("bad%zz"), None);
}

#[test]
fn missing_token_is_rejected_when_one_is_configured() {
    assert!(!authorized_http_request("GET /ws HTTP/1.1\r\n\r\n", "/ws", Some("s3cret")));
}

#[test]
fn response_metadata() {
    assert_eq!(reason_phrase(200), "OK");
    assert_eq!(reason_phrase(404), "Not Found");
    assert_eq!(reason_phrase(405), "Method Not Allowed");
    assert_eq!(reason_phrase(500), "Error");
    assert_eq!(content_type("<!DOCTYPE html>"), ContentType::Html);
    assert_eq!(content_type("{\"a\":1}"), ContentType::Json);
    assert_eq!(content_type("plain"), ContentType::Text);
}

fn net(web: bool, phone: bool, token: Option<&str>) -> Net {
    Net { listen_ip: None, port: 4242, token: token.map(str::to_string), web_enabled: web, phone_enabled: phone }
}

#[test]
fn startup_with_both_transports_off_listens_on_nothing() {
    let long = "x".repeat(300);
    let server = Server::new(net(false, false, Some(&long)));
    assert_eq!(server.startup(ListenIp::Invalid), Ok(Startup::Disabled));
}

#[test]
fn startup_opens_the_enabled_transports_on_the_safe_address() {
    let s = Server::new(net(true, false, None));
    assert_eq!(
        s.startup(ListenIp::Unset),
        Ok(Startup::Listen { udp: false, tcp: true, address: ListenAddress::Loopback })
    );
    assert_eq!(s.startup(ListenIp::Other), Err(StartupError::NonLoopbackWithoutToken));
    assert_eq!(
        s.startup(ListenIp::Loopback),
        Ok(Startup::Listen { udp: false, tcp: true, address: ListenAddress::Configured })
    );
    // An empty token counts as none.
    let empty = Server::new(net(false, true, Some("")));
    assert_eq!(empty.startup(ListenIp::Other), Err(StartupError::NonLoopbackWithoutToken));
    let t = Server::new(net(true, true, Some("s3cret")));
    assert_eq!(
        t.startup(ListenIp::Unset),
        Ok(Startup::Listen { udp: true, tcp: true, address: ListenAddress::AllInterfaces })
    );
    assert_eq!(
        t.startup(ListenIp::Other),
        Ok(Startup::Listen { udp: true, tcp: true, address: ListenAddress::Configured })
    );
}

#[test]
fn startup_refuses_an_overlong_token_and_a_bad_address() {
    let long = "é".repeat(129);
    let s = Server::new(net(true, true, Some(&long)));
    assert_eq!(s.startup(ListenIp::Unset), Err(StartupError::TokenTooLong { len: 258 }));
    let ok = Server::new(net(true, true, Some(&"x".repeat(256))));
    assert!(ok.startup(ListenIp::Unset).is_ok());
    assert_eq!(ok.startup(ListenIp::Invalid), Err(StartupError::InvalidListenIp));
}
