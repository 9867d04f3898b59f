//! Network transport logic: the authenticated UDP envelope, the WebSocket
//! handshake key, and the HTTP response framing choices.
use crate::config::{listen_address, ListenAddress, ListenError, Net};
use crate::http::{eq_ignore_case_at, find_from, line_end, trim_end_at, trim_start_at};
use crate::text::{all_ascii, ascii_chars, ascii_string};
use vstd::prelude::*;
use vstd::string::StringSliceAdditionalSpecFns;

verus! {

broadcast use vstd::string::group_string_axioms;

/// Authenticated UDP envelope magic, `"ATK1"`.
pub open spec fn auth_magic() -> Seq<u8> {
    seq![0x41u8, 0x54, 0x4b, 0x31]
}

pub const AUTH_HEADER_LEN: usize = 6;

pub const AUTH_TOKEN_MAX_BYTES: usize = 256;

/// What `authenticated_udp_payload` yields: with no token the datagram is the
/// frame; with a token it must be `ATK1 | token_len:u16le | token | frame`
/// carrying exactly the configured token, and the frame is what follows.
pub open spec fn spec_udp_payload(buf: Seq<u8>, token: Option<Seq<u8>>) -> Option<Seq<u8>> {
    match token {
        None => Some(buf),
        Some(t) => {
            if buf.len() < AUTH_HEADER_LEN || buf.subrange(0, 4) != auth_magic() {
                None
            } else {
                let len = buf[4] as int + 256 * (buf[5] as int);
                if len == 0 || len > AUTH_TOKEN_MAX_BYTES || AUTH_HEADER_LEN + len > buf.len() {
                    None
                } else if buf.subrange(AUTH_HEADER_LEN as int, AUTH_HEADER_LEN + len) != t {
                    None
                } else {
                    Some(buf.subrange(AUTH_HEADER_LEN + len, buf.len() as int))
                }
            }
        },
    }
}

/// The ATP1 payload of a UDP datagram.
pub fn authenticated_udp_payload<'a>(buf: &'a [u8], token: Option<&str>) -> (r: Option<&'a [u8]>)
    ensures
        match spec_udp_payload(
            buf@,
            match token {
                Some(t) => Some(t.spec_bytes()),
                None => None,
            },
        ) {
            Some(p) => r matches Some(s) && s@ == p,
            None => r is None,
        },
{
    let expected = match token {
        Some(t) => t,
        None => {
            return Some(buf);
        },
    };
    if buf.len() < AUTH_HEADER_LEN || !(buf[0] == 0x41 && buf[1] == 0x54 && buf[2] == 0x4b && buf[3]
        == 0x31) {
        proof {
            if buf@.len() >= AUTH_HEADER_LEN {
                assert(buf@.subrange(0, 4) != auth_magic()) by {
                    if buf@.subrange(0, 4) == auth_magic() {
                        assert(buf@.subrange(0, 4)[0] == buf@[0]);
                        assert(buf@.subrange(0, 4)[1] == buf@[1]);
                        assert(buf@.subrange(0, 4)[2] == buf@[2]);
                        assert(buf@.subrange(0, 4)[3] == buf@[3]);
                    }
                }
            }
        }
        return None;
    }
    assert(buf@.subrange(0, 4) =~= auth_magic());
    let token_len = (buf[4] as usize) + 256 * (buf[5] as usize);
    if token_len == 0 || token_len > AUTH_TOKEN_MAX_BYTES {
        return None;
    }
    let payload_at = AUTH_HEADER_LEN + token_len;
    if payload_at > buf.len() {
        return None;
    }
    let presented = vstd::slice::slice_subrange(buf, AUTH_HEADER_LEN, payload_at);
    if !crate::http::constant_time_eq(presented, expected.as_bytes()) {
        return None;
    }
    Some(vstd::slice::slice_subrange(buf, payload_at, buf.len()))
}

/// The envelope a client sends: `ATK1`, the token's length (little-endian
/// `u16`), the token, then the ATP1 frame.
pub open spec fn envelope(token: Seq<u8>, frame: Seq<u8>) -> Seq<u8> {
    auth_magic() + seq![(token.len() % 256) as u8, (token.len() / 256) as u8] + token + frame
}

/// Law: a frame wrapped in an envelope with the configured token comes out
/// unchanged, and without a configured token a datagram is its own frame.
pub proof fn lemma_envelope_round_trip(token: Seq<u8>, frame: Seq<u8>)
    requires
        1 <= token.len() <= AUTH_TOKEN_MAX_BYTES,
    ensures
        spec_udp_payload(envelope(token, frame), Some(token)) == Some(frame),
        spec_udp_payload(frame, None) == Some(frame),
{
    let b = envelope(token, frame);
    let n = token.len();
    assert(b.subrange(0, 4) =~= auth_magic());
    assert(b[4] == (n % 256) as u8);
    assert(b[5] == (n / 256) as u8);
    assert(b[4] as int + 256 * (b[5] as int) == n);
    assert(b.subrange(AUTH_HEADER_LEN as int, AUTH_HEADER_LEN + n) =~= token);
    assert(b.subrange(AUTH_HEADER_LEN + n, b.len() as int) =~= frame);
}

// ---- base64 ----

/// The base64 alphabet.
pub open spec fn b64_char(i: u32) -> u8 {
    if i < 26 {
        (0x41 + i) as u8
    } else if i < 52 {
        (0x61 + i - 26) as u8
    } else if i < 62 {
        (0x30 + i - 52) as u8
    } else if i == 62 {
        0x2bu8
    } else {
        0x2fu8
    }
}

/// The four output characters of one input chunk of one to three bytes.
pub open spec fn b64_chunk(chunk: Seq<u8>) -> Seq<u8> {
    let b0 = chunk[0];
    let b1 = if chunk.len() > 1 { chunk[1] } else { 0u8 };
    let b2 = if chunk.len() > 2 { chunk[2] } else { 0u8 };
    let word = ((b0 as u32) << 16u32) | ((b1 as u32) << 8u32) | (b2 as u32);
    seq![
        b64_char((word >> 18u32) & 63),
        b64_char((word >> 12u32) & 63),
        if chunk.len() > 1 { b64_char((word >> 6u32) & 63) } else { 0x3du8 },
        if chunk.len() > 2 { b64_char(word & 63) } else { 0x3du8 },
    ]
}

/// Standard padded base64 of `data`.
pub open spec fn spec_base64(data: Seq<u8>) -> Seq<u8>
    decreases data.len(),
{
    if data.len() == 0 {
        Seq::empty()
    } else if data.len() <= 3 {
        b64_chunk(data)
    } else {
        b64_chunk(data.take(3)) + spec_base64(data.skip(3))
    }
}

fn b64_char_exec(i: u32) -> (r: u8)
    requires
        i < 64,
    ensures
        r == b64_char(i),
        r < 128,
{
    if i < 26 {
        (0x41 + i) as u8
    } else if i < 52 {
        (0x61 + i - 26) as u8
    } else if i < 62 {
        (0x30 + i - 52) as u8
    } else if i == 62 {
        0x2b
    } else {
        0x2f
    }
}

/// Law: base64 output is four characters per started three-byte chunk.
pub proof fn lemma_base64_len(data: Seq<u8>)
    ensures
        spec_base64(data).len() == 4 * ((data.len() + 2) / 3),
    decreases data.len(),
{
    if data.len() > 3 {
        lemma_base64_len(data.skip(3));
    }
}

/// Standard padded base64 of `data`, as bytes.
pub fn base64_bytes(data: &[u8]) -> (r: Vec<u8>)
    ensures
        r@ == spec_base64(data@),
        all_ascii(r@),
{
    let mut out: Vec<u8> = Vec::new();
    let mut i: usize = 0;
    assert(data@.skip(0) =~= data@);
    assert(out@ + spec_base64(data@) =~= spec_base64(data@));
    while i < data.len()
        invariant
            i <= data@.len(),
            spec_base64(data@) == out@ + spec_base64(data@.skip(i as int)),
            all_ascii(out@),
        decreases data@.len() - i,
    {
        let rest = data.len() - i;
        let b0 = data[i];
        let b1 = if rest > 1 { data[i + 1] } else { 0u8 };
        let b2 = if rest > 2 { data[i + 2] } else { 0u8 };
        let word: u32 = ((b0 as u32) << 16u32) | ((b1 as u32) << 8u32) | (b2 as u32);
        let ghost tail = data@.skip(i as int);
        let ghost chunk = if rest > 3 { tail.take(3) } else { tail };
        proof {
            assert((word >> 18u32) & 63 < 64 && (word >> 12u32) & 63 < 64 && (word >> 6u32) & 63
                < 64 && word & 63 < 64) by (bit_vector);
            assert(chunk[0] == b0);
            assert(chunk.len() > 1 ==> chunk[1] == b1);
            assert(chunk.len() > 2 ==> chunk[2] == b2);
            assert(chunk.len() == (if rest > 3 { 3 } else { rest }));
        }
        let ghost before = out@;
        out.push(b64_char_exec((word >> 18u32) & 63));
        out.push(b64_char_exec((word >> 12u32) & 63));
        out.push(if rest > 1 { b64_char_exec((word >> 6u32) & 63) } else { 0x3d });
        out.push(if rest > 2 { b64_char_exec(word & 63) } else { 0x3d });
        proof {
            assert(out@ =~= before + b64_chunk(chunk));
            if rest > 3 {
                assert(tail.skip(3) =~= data@.skip(i + 3));
                assert(spec_base64(tail) == b64_chunk(chunk) + spec_base64(tail.skip(3)));
            } else {
                assert(data@.skip(data@.len() as int) =~= Seq::<u8>::empty());
                assert(spec_base64(tail) == b64_chunk(chunk));
            }
        }
        i = if rest > 3 { i + 3 } else { data.len() };
    }
    assert(data@.skip(i as int) =~= Seq::<u8>::empty());
    assert(out@ + Seq::<u8>::empty() =~= out@);
    out
}

/// Standard padded base64 of `data`.
pub fn base64(data: &[u8]) -> (r: String)
    ensures
        r@ == ascii_chars(spec_base64(data@)),
{
    ascii_string(base64_bytes(data))
}

// ---- WebSocket handshake ----

/// The SHA-1 digest of `data`.
pub uninterp spec fn sha1_digest(data: Seq<u8>) -> Seq<u8>;

/// `sha1::Sha1::digest`: the crate's SHA-1 of `data`; a SHA-1 digest is 20 bytes.
#[verifier::external_body]
fn sha1(data: &[u8]) -> (r: Vec<u8>)
    ensures
        r@ == sha1_digest(data@),
        r@.len() == 20,
{
    <sha1::Sha1 as sha1::Digest>::digest(data).to_vec()
}

/// RFC 6455 key GUID.
pub open spec fn ws_guid() -> Seq<char> {
    "258EAFA5-E914-47DA-95CA-C5AB0DC85B11"@
}

/// `sec-websocket-key:`
pub open spec fn ws_key_header() -> Seq<u8> {
    seq![
        0x73u8, 0x65, 0x63, 0x2d, 0x77, 0x65, 0x62, 0x73, 0x6f, 0x63, 0x6b, 0x65, 0x74, 0x2d, 0x6b,
        0x65, 0x79, 0x3a,
    ]
}

/// Whether the line `lo..hi`, ASCII-lowercased, starts with `sec-websocket-key:`.
pub open spec fn is_key_line(s: Seq<u8>, lo: int, hi: int) -> bool {
    hi - lo >= 18 && eq_ignore_case_at(s, lo, lo + 18, ws_key_header())
}

/// The bounds of the first key line at or after `pos`.
pub open spec fn first_key_line_from(s: Seq<u8>, pos: int) -> Option<(int, int)>
    decreases s.len() - pos,
{
    if pos >= s.len() || pos < 0 {
        None
    } else {
        let nl = find_from(s, 0x0a, pos);
        proof {
            crate::http::lemma_find_from(s, 0x0a, pos);
        }
        if is_key_line(s, pos, line_end(s, pos)) {
            Some((pos, line_end(s, pos)))
        } else if nl < s.len() {
            first_key_line_from(s, nl + 1)
        } else {
            None
        }
    }
}

/// The key bytes offered in the request head (the trimmed value of the first
/// `Sec-WebSocket-Key` line).
pub open spec fn spec_ws_key(head: Seq<u8>) -> Option<Seq<u8>> {
    match first_key_line_from(head, 0) {
        Some(l) => {
            let a = trim_start_at(head, l.0 + 18, l.1);
            let b = trim_end_at(head, a, l.1);
            Some(head.subrange(a, b))
        },
        None => None,
    }
}

/// `Sec-WebSocket-Accept` for the request head: base64 of the SHA-1 of the
/// key followed by the RFC 6455 GUID.
pub open spec fn spec_ws_accept(head: Seq<u8>) -> Option<Seq<char>> {
    match spec_ws_key(head) {
        Some(key) => Some(
            ascii_chars(spec_base64(sha1_digest(key + vstd::utf8::encode_utf8(ws_guid())))),
        ),
        None => None,
    }
}

fn first_key_line(s: &[u8]) -> (r: Option<(usize, usize)>)
    ensures
        r is None <==> first_key_line_from(s@, 0) is None,
        r matches Some(p) ==> first_key_line_from(s@, 0) == Some((p.0 as int, p.1 as int)) && p.0
            + 18 <= p.1 <= s@.len(),
{
    let mut header: Vec<u8> = Vec::new();
    header.push(0x73);
    header.push(0x65);
    header.push(0x63);
    header.push(0x2d);
    header.push(0x77);
    header.push(0x65);
    header.push(0x62);
    header.push(0x73);
    header.push(0x6f);
    header.push(0x63);
    header.push(0x6b);
    header.push(0x65);
    header.push(0x74);
    header.push(0x2d);
    header.push(0x6b);
    header.push(0x65);
    header.push(0x79);
    header.push(0x3a);
    assert(header@ =~= ws_key_header());
    let mut pos: usize = 0;
    while pos < s.len()
        invariant
            pos <= s@.len(),
            header@ == ws_key_header(),
            first_key_line_from(s@, pos as int) == first_key_line_from(s@, 0),
        decreases s@.len() - pos,
    {
        let (nl, end) = crate::http::line_end_exec(s, pos);
        if end - pos >= 18 && crate::http::eq_ignore_case_exec(s, pos, pos + 18, header.as_slice()) {
            return Some((pos, end));
        }
        if nl >= s.len() {
            return None;
        }
        pos = nl + 1;
    }
    None
}

/// `Sec-WebSocket-Accept` value for the request head, if it offers a key.
pub fn ws_handshake_key(head: &str) -> (r: Option<String>)
    ensures
        match spec_ws_accept(head.spec_bytes()) {
            Some(a) => r matches Some(s) && s@ == a,
            None => r is None,
        },
{
    let bytes = head.as_bytes();
    let (lo, hi) = match first_key_line(bytes) {
        Some(l) => l,
        None => {
            return None;
        },
    };
    let (a, b) = crate::http::trim_range(bytes, lo + 18, hi);
    let mut data = crate::text::bytes_range(bytes, a, b);
    let guid = "258EAFA5-E914-47DA-95CA-C5AB0DC85B11";
    let guid_bytes = guid.as_bytes();
    let ghost key = data@;
    let mut i: usize = 0;
    while i < guid_bytes.len()
        invariant
            i <= guid_bytes@.len(),
            data@ == key + guid_bytes@.subrange(0, i as int),
        decreases guid_bytes@.len() - i,
    {
        data.push(guid_bytes[i]);
        assert(data@ =~= key + guid_bytes@.subrange(0, i + 1));
        i = i + 1;
    }
    assert(guid_bytes@.subrange(0, guid_bytes@.len() as int) =~= guid_bytes@);
    let digest = sha1(data.as_slice());
    Some(base64(digest.as_slice()))
}

// ---- HTTP responses ----

/// Reason phrase for a status code.
pub fn reason_phrase(code: u16) -> (r: &'static str)
    ensures
        code == 200 ==> r@ == "OK"@,
        code == 404 ==> r@ == "Not Found"@,
        code == 405 ==> r@ == "Method Not Allowed"@,
        code != 200 && code != 404 && code != 405 ==> r@ == "Error"@,
{
    match code {
        200 => "OK",
        404 => "Not Found",
        405 => "Method Not Allowed",
        _ => "Error",
    }
}

#[derive(Clone, Copy, Debug, PartialEq, Eq, Structural)]
pub enum ContentType {
    Html,
    Json,
    Text,
}

/// The content type a response body is served with, judged by how it starts.
pub open spec fn spec_content_type(body: Seq<u8>) -> ContentType {
    let doctype = seq![0x3cu8, 0x21, 0x44, 0x4f, 0x43, 0x54, 0x59, 0x50, 0x45];
    let html = seq![0x3cu8, 0x68, 0x74, 0x6d, 0x6c];
    if (body.len() >= 9 && body.subrange(0, 9) == doctype) || (body.len() >= 5 && body.subrange(0, 5)
        == html) {
        ContentType::Html
    } else if body.len() >= 1 && (body[0] == 0x7b || body[0] == 0x5b) {
        ContentType::Json
    } else {
        ContentType::Text
    }
}

pub fn content_type(body: &str) -> (r: ContentType)
    ensures
        r == spec_content_type(body.spec_bytes()),
{
    let b = body.as_bytes();
    let doctype: Vec<u8> = vec![0x3cu8, 0x21, 0x44, 0x4f, 0x43, 0x54, 0x59, 0x50, 0x45];
    let html: Vec<u8> = vec![0x3cu8, 0x68, 0x74, 0x6d, 0x6c];
    assert(doctype@ =~= seq![0x3cu8, 0x21, 0x44, 0x4f, 0x43, 0x54, 0x59, 0x50, 0x45]);
    assert(html@ =~= seq![0x3cu8, 0x68, 0x74, 0x6d, 0x6c]);
    if crate::text::bytes_starts_with(b, doctype.as_slice()) || crate::text::bytes_starts_with(
        b,
        html.as_slice(),
    ) {
        ContentType::Html
    } else if b.len() >= 1 && (b[0] == 0x7b || b[0] == 0x5b) {
        ContentType::Json
    } else {
        ContentType::Text
    }
}

impl ContentType {
    pub fn header_value(self) -> (r: &'static str)
        ensures
            self == ContentType::Html ==> r@ == "text/html; charset=utf-8"@,
            self == ContentType::Json ==> r@ == "application/json; charset=utf-8"@,
            self == ContentType::Text ==> r@ == "text/plain"@,
    {
        match self {
            ContentType::Html => "text/html; charset=utf-8",
            ContentType::Json => "application/json; charset=utf-8",
            ContentType::Text => "text/plain",
        }
    }
}

/// The network transport: its configuration. Running it is the caller's
/// I/O loop.
pub struct Server {
    cfg: Net,
}

impl Server {
    pub closed spec fn config(&self) -> Net {
        self.cfg
    }

    pub fn new(cfg: Net) -> (r: Self)
        ensures
            r.config() == cfg,
    {
        Server { cfg }
    }

    /// The transport configuration.
    pub fn net(&self) -> (r: &Net)
        ensures
            *r == self.config(),
    {
        &self.cfg
    }

    /// What the listener opens, decided before any socket is bound: with
    /// both transports off nothing listens and nothing else is checked; a
    /// configured token longer than 256 bytes is refused; then an
    /// unparsable `listen_ip`; then the bind rule of `listen_address`.
    pub fn startup(&self, listen_ip: ListenIp) -> (r: Result<Startup, StartupError>)
        ensures
            r == spec_startup(self.config(), listen_ip),
    {
        if !self.cfg.web_enabled && !self.cfg.phone_enabled {
            return Ok(Startup::Disabled);
        }
        let token = self.cfg.configured_token();
        if let Some(t) = token {
            let len = t.len();
            if len > AUTH_TOKEN_MAX_BYTES {
                return Err(StartupError::TokenTooLong { len });
            }
        }
        let loopback = match listen_ip {
            ListenIp::Unset => None,
            ListenIp::Loopback => Some(true),
            ListenIp::Other => Some(false),
            ListenIp::Invalid => {
                return Err(StartupError::InvalidListenIp);
            },
        };
        match listen_address(token.is_some(), loopback) {
            Ok(address) => Ok(
                Startup::Listen { udp: self.cfg.phone_enabled, tcp: self.cfg.web_enabled, address },
            ),
            Err(ListenError::NonLoopbackWithoutToken) => Err(StartupError::NonLoopbackWithoutToken),
        }
    }
}

/// The configured `listen_ip`, as the caller parsed it.
#[derive(Clone, Copy, Debug, PartialEq, Eq, Structural)]
pub enum ListenIp {
    Unset,
    Loopback,
    /// A valid address that is not loopback.
    Other,
    /// Text that is no IP address.
    Invalid,
}

/// What the listener opens.
#[derive(Clone, Copy, Debug, PartialEq, Eq, Structural)]
pub enum Startup {
    /// Both transports are off: nothing listens.
    Disabled,
    /// UDP (phone access) and TCP (web access) as enabled, on `address`.
    Listen { udp: bool, tcp: bool, address: ListenAddress },
}

#[derive(Clone, Copy, Debug, PartialEq, Eq, Structural)]
pub enum StartupError {
    /// The token is longer than an envelope can carry; `len` is in bytes.
    TokenTooLong { len: usize },
    InvalidListenIp,
    /// A non-loopback `listen_ip` without a token.
    NonLoopbackWithoutToken,
}

/// The token's length in UTF-8 bytes, as `str::len` gives it.
pub open spec fn token_bytes(t: Seq<char>) -> usize {
    vstd::utf8::encode_utf8(t).len() as usize
}

pub open spec fn spec_startup(cfg: Net, listen_ip: ListenIp) -> Result<Startup, StartupError> {
    let token_configured = cfg.token matches Some(t) && t@.len() > 0;
    if !cfg.web_enabled && !cfg.phone_enabled {
        Ok(Startup::Disabled)
    } else if cfg.token matches Some(t) && t@.len() > 0 && token_bytes(t@) > AUTH_TOKEN_MAX_BYTES {
        Err(StartupError::TokenTooLong { len: token_bytes(cfg.token.unwrap()@) })
    } else {
        match listen_ip {
            ListenIp::Invalid => Err(StartupError::InvalidListenIp),
            ListenIp::Unset => Ok(
                Startup::Listen {
                    udp: cfg.phone_enabled,
                    tcp: cfg.web_enabled,
                    address: if token_configured {
                        ListenAddress::AllInterfaces
                    } else {
                        ListenAddress::Loopback
                    },
                },
            ),
            ListenIp::Loopback => Ok(
                Startup::Listen {
                    udp: cfg.phone_enabled,
                    tcp: cfg.web_enabled,
                    address: ListenAddress::Configured,
                },
            ),
            ListenIp::Other => if token_configured {
                Ok(
                    Startup::Listen {
                        udp: cfg.phone_enabled,
                        tcp: cfg.web_enabled,
                        address: ListenAddress::Configured,
                    },
                )
            } else {
                Err(StartupError::NonLoopbackWithoutToken)
            },
        }
    }
}

/// Law: the listener never serves a non-loopback address without a token,
/// and opens exactly the transports that are switched on.
pub proof fn lemma_startup_is_safe(cfg: Net, listen_ip: ListenIp)
    ensures
        spec_startup(cfg, listen_ip) matches Ok(Startup::Listen { udp, tcp, address }) ==> {
            &&& udp == cfg.phone_enabled
            &&& tcp == cfg.web_enabled
            &&& (udp || tcp)
            &&& !(cfg.token matches Some(t) && t@.len() > 0) ==> (address == ListenAddress::Loopback || (
            address == ListenAddress::Configured && listen_ip == ListenIp::Loopback))
        },
{
}

} // verus!
