//! Transport decisions of the network input server: which endpoint an HTTP
//! request reaches, how a UDP datagram is handled, how WebSocket frames are
//! framed, and what the frame pump does on each event. The sockets, threads
//! and clocks stay with the caller.
use crate::http::{
    eq_ignore_case_at, eq_ignore_case_exec, find_from, find_from_exec, lemma_find_from, line_end,
    line_end_exec, spec_authorized, trim_start_at, ws_len_at, ws_len_at_exec, authorized_bytes,
};
use crate::ingest::{flow_of, lemma_repeat_inside_window_is_replay, FlowModel, spec_flow_admit, REPLAY_WINDOW_NS, spec_observe, Admit, PeerAddr, PeerDecision, PeerGate, PeerGateModel, PeerId, UdpIngest, PEER_QUARANTINE_NS};
use crate::net::{authenticated_udp_payload, spec_udp_payload};
use crate::proto::{decode, spec_decode, DecodeError, Frame, FrameModel};
use crate::text::{bytes_eq, bytes_starts_with};
use vstd::prelude::*;
use vstd::string::StringSliceAdditionalSpecFns;

verus! {

broadcast use vstd::string::group_string_axioms;

// ---- request routing ----

/// End of the token that starts at `lo`: the next whitespace or `hi`.
pub open spec fn token_end(s: Seq<u8>, lo: int, hi: int) -> int
    decreases hi - lo,
{
    if lo < hi && ws_len_at(s, lo, hi) == 0 {
        token_end(s, lo + 1, hi)
    } else {
        lo
    }
}

/// The first whitespace-separated token of `s[lo..hi]`.
pub open spec fn first_token(s: Seq<u8>, lo: int, hi: int) -> Option<(int, int)> {
    let a = trim_start_at(s, lo, hi);
    if a < hi {
        Some((a, token_end(s, a, hi)))
    } else {
        None
    }
}

/// End of the request line (the first line of the head).
pub open spec fn request_line_end(head: Seq<u8>) -> int {
    if head.len() == 0 {
        0
    } else {
        line_end(head, 0)
    }
}

/// The request method: the first token of the request line.
pub open spec fn method_of(head: Seq<u8>) -> Seq<u8> {
    match first_token(head, 0, request_line_end(head)) {
        Some((a, b)) => head.subrange(a, b),
        None => Seq::empty(),
    }
}

/// The request target: the second token of the request line, `/` if missing.
pub open spec fn raw_path_of(head: Seq<u8>) -> Seq<u8> {
    match first_token(head, 0, request_line_end(head)) {
        Some((_, b)) => match first_token(head, b, request_line_end(head)) {
            Some((c, d)) => head.subrange(c, d),
            None => "/".spec_bytes(),
        },
        None => "/".spec_bytes(),
    }
}

/// End of `p[0..end]` without trailing `/`.
pub open spec fn strip_slashes(p: Seq<u8>, end: int) -> int
    decreases end,
{
    if end > 0 && p[end - 1] == 0x2f {
        strip_slashes(p, end - 1)
    } else {
        end
    }
}

/// The target before any `?`, without trailing slashes.
pub open spec fn clean_path(raw: Seq<u8>) -> Seq<u8> {
    raw.subrange(0, strip_slashes(raw, find_from(raw, 0x3f, 0)))
}

/// `pat` (lowercase) occurs at `i` in `s`, ignoring ASCII case.
pub open spec fn matches_at(s: Seq<u8>, i: int, pat: Seq<u8>) -> bool {
    eq_ignore_case_at(s, i, i + pat.len(), pat)
}

pub open spec fn contains_ignore_case(s: Seq<u8>, pat: Seq<u8>) -> bool {
    exists|i: int| 0 <= i && i + pat.len() <= s.len() && #[trigger] matches_at(s, i, pat)
}

pub open spec fn is_lit_ci(p: Seq<u8>, lit: Seq<u8>) -> bool {
    eq_ignore_case_at(p, 0, p.len() as int, lit)
}

/// Where a request goes.
#[derive(Clone, Copy, Debug, PartialEq, Eq, Structural)]
pub enum Route {
    /// Anything but `GET`: 405.
    MethodNotAllowed,
    /// A protected endpoint without the configured token: 401.
    Unauthorized,
    /// The liveness endpoint.
    Health,
    /// The WebSocket upgrade for touch frames.
    WebSocket,
    /// The touchpad page.
    Page,
    /// The diagnostics page.
    Tester,
    /// 404 with links to the pages.
    NotFound,
}

pub open spec fn wants_websocket(head: Seq<u8>) -> bool {
    let raw = raw_path_of(head);
    (clean_path(raw) == "/ws".spec_bytes() || raw == "/ws".spec_bytes()) && contains_ignore_case(
        head,
        "upgrade: websocket".spec_bytes(),
    )
}

pub open spec fn is_page_path(clean: Seq<u8>) -> bool {
    clean.len() == 0 || is_lit_ci(clean, "/index.html".spec_bytes()) || is_lit_ci(
        clean,
        "/touchpad.html".spec_bytes(),
    ) || is_lit_ci(clean, "/touchpad".spec_bytes())
}

pub open spec fn is_tester_path(clean: Seq<u8>) -> bool {
    is_lit_ci(clean, "/test".spec_bytes()) || is_lit_ci(clean, "/tester".spec_bytes()) || is_lit_ci(
        clean,
        "/test.html".spec_bytes(),
    ) || is_lit_ci(clean, "/tester.html".spec_bytes())
}

/// The endpoint a request head reaches, given the configured token.
pub open spec fn spec_route(head: Seq<u8>, token: Option<Seq<u8>>) -> Route {
    let raw = raw_path_of(head);
    let clean = clean_path(raw);
    let authorized = spec_authorized(head, raw, token);
    if method_of(head) != "GET".spec_bytes() {
        Route::MethodNotAllowed
    } else if clean == "/health".spec_bytes() {
        if authorized { Route::Health } else { Route::Unauthorized }
    } else if wants_websocket(head) {
        if authorized { Route::WebSocket } else { Route::Unauthorized }
    } else if is_page_path(clean) {
        if authorized { Route::Page } else { Route::Unauthorized }
    } else if is_tester_path(clean) {
        if authorized { Route::Tester } else { Route::Unauthorized }
    } else {
        Route::NotFound
    }
}

fn token_end_exec(s: &[u8], lo: usize, hi: usize) -> (r: usize)
    requires
        lo <= hi <= s@.len(),
    ensures
        r == token_end(s@, lo as int, hi as int),
        lo <= r <= hi,
{
    let mut i = lo;
    while i < hi && ws_len_at_exec(s, i, hi) == 0
        invariant
            lo <= i <= hi <= s@.len(),
            token_end(s@, i as int, hi as int) == token_end(s@, lo as int, hi as int),
        decreases hi - i,
    {
        i = i + 1;
    }
    i
}

proof fn lemma_token_end_bound(s: Seq<u8>, lo: int, hi: int)
    requires
        lo <= hi,
    ensures
        lo <= token_end(s, lo, hi) <= hi,
    decreases hi - lo,
{
    if lo < hi && ws_len_at(s, lo, hi) == 0 {
        lemma_token_end_bound(s, lo + 1, hi);
    }
}

fn first_token_exec(s: &[u8], lo: usize, hi: usize) -> (r: Option<(usize, usize)>)
    requires
        lo <= hi <= s@.len(),
    ensures
        match first_token(s@, lo as int, hi as int) {
            Some((a, b)) => r == Some((a as usize, b as usize)) && lo <= a <= b <= hi,
            None => r is None,
        },
{
    let (a, _) = crate::http::trim_range(s, lo, hi);
    if a < hi {
        let b = token_end_exec(s, a, hi);
        Some((a, b))
    } else {
        None
    }
}

/// The bytes of the request target (`/` when the request line has none).
pub fn request_raw_path(head: &[u8]) -> (r: Vec<u8>)
    ensures
        r@ == raw_path_of(head@),
{
    let le = if head.len() == 0 {
        0
    } else {
        let (_, end) = line_end_exec(head, 0);
        end
    };
    match first_token_exec(head, 0, le) {
        Some((_, b)) => match first_token_exec(head, b, le) {
            Some((c, d)) => crate::text::bytes_range(head, c, d),
            None => slash_bytes(),
        },
        None => slash_bytes(),
    }
}

fn slash_bytes() -> (r: Vec<u8>)
    ensures
        r@ == "/".spec_bytes(),
{
    let s = "/";
    let b = s.as_bytes();
    crate::text::bytes_range(b, 0, b.len())
}

fn request_method_is_get(head: &[u8]) -> (r: bool)
    ensures
        r == (method_of(head@) == "GET".spec_bytes()),
{
    let le = if head.len() == 0 {
        0
    } else {
        let (_, end) = line_end_exec(head, 0);
        end
    };
    match first_token_exec(head, 0, le) {
        Some((a, b)) => {
            let m = vstd::slice::slice_subrange(head, a, b);
            bytes_eq(m, "GET".as_bytes())
        },
        None => {
            let empty: Vec<u8> = Vec::new();
            bytes_eq(empty.as_slice(), "GET".as_bytes())
        },
    }
}

fn clean_path_end(raw: &[u8]) -> (r: usize)
    ensures
        r <= raw@.len(),
        raw@.subrange(0, r as int) == clean_path(raw@),
{
    let q = find_from_exec(raw, 0x3f, 0);
    let mut end = q;
    while end > 0 && raw[end - 1] == 0x2f
        invariant
            end <= q <= raw@.len(),
            strip_slashes(raw@, end as int) == strip_slashes(raw@, q as int),
        decreases end,
    {
        end = end - 1;
    }
    end
}

fn contains_ignore_case_exec(s: &[u8], pat: &[u8]) -> (r: bool)
    ensures
        r == contains_ignore_case(s@, pat@),
{
    if pat.len() > s.len() {
        return false;
    }
    let mut i: usize = 0;
    while i <= s.len() - pat.len()
        invariant
            pat@.len() <= s@.len(),
            i <= s@.len() - pat@.len() + 1,
            forall|j: int| 0 <= j < i ==> !#[trigger] matches_at(s@, j, pat@),
        decreases s@.len() - i,
    {
        if eq_ignore_case_exec(s, i, i + pat.len(), pat) {
            assert(matches_at(s@, i as int, pat@));
            return true;
        }
        i = i + 1;
    }
    false
}

/// Routes a request head; `token` is the configured bearer token.
pub fn route_request(head: &str, token: Option<&str>) -> (r: Route)
    ensures
        r == spec_route(
            head.spec_bytes(),
            match token {
                Some(t) => Some(t.spec_bytes()),
                None => None,
            },
        ),
{
    let h = head.as_bytes();
    let raw = request_raw_path(h);
    let cend = clean_path_end(raw.as_slice());
    let clean = vstd::slice::slice_subrange(raw.as_slice(), 0, cend);
    let t = match token {
        Some(t) => Some(t.as_bytes()),
        None => None,
    };
    if !request_method_is_get(h) {
        return Route::MethodNotAllowed;
    }
    let authorized = authorized_bytes(h, raw.as_slice(), t);
    if bytes_eq(clean, "/health".as_bytes()) {
        return if authorized { Route::Health } else { Route::Unauthorized };
    }
    let ws_target = bytes_eq(clean, "/ws".as_bytes()) || bytes_eq(raw.as_slice(), "/ws".as_bytes());
    if ws_target && contains_ignore_case_exec(h, "upgrade: websocket".as_bytes()) {
        return if authorized { Route::WebSocket } else { Route::Unauthorized };
    }
    let n = clean.len();
    let page = n == 0 || eq_ignore_case_exec(clean, 0, n, "/index.html".as_bytes())
        || eq_ignore_case_exec(clean, 0, n, "/touchpad.html".as_bytes())
        || eq_ignore_case_exec(clean, 0, n, "/touchpad".as_bytes());
    if page {
        return if authorized { Route::Page } else { Route::Unauthorized };
    }
    let tester = eq_ignore_case_exec(clean, 0, n, "/test".as_bytes())
        || eq_ignore_case_exec(clean, 0, n, "/tester".as_bytes())
        || eq_ignore_case_exec(clean, 0, n, "/test.html".as_bytes())
        || eq_ignore_case_exec(clean, 0, n, "/tester.html".as_bytes());
    if tester {
        return if authorized { Route::Tester } else { Route::Unauthorized };
    }
    Route::NotFound
}

/// Law: every endpoint the server serves, the pages included, is reached
/// only with the configured token; without a token configured nothing is
/// refused for want of one.
pub proof fn lemma_served_routes_are_authorized(head: Seq<u8>, token: Option<Seq<u8>>)
    ensures
        (spec_route(head, token) is Health || spec_route(head, token) is WebSocket
            || spec_route(head, token) is Page || spec_route(head, token) is Tester) ==> spec_authorized(
            head,
            raw_path_of(head),
            token,
        ),
        token is None ==> !(spec_route(head, token) is Unauthorized),
{
}

// ---- UDP datagrams ----

/// A reachability probe starts with `"ATQ1"`.
pub open spec fn probe_magic() -> Seq<u8> {
    seq![0x41u8, 0x54, 0x51, 0x31]
}

/// The answer to an authorized probe, `"ATA1"`.
pub open spec fn probe_ack() -> Seq<u8> {
    seq![0x41u8, 0x54, 0x41, 0x31]
}

pub fn probe_ack_bytes() -> (r: Vec<u8>)
    ensures
        r@ == probe_ack(),
{
    let r = vec![0x41u8, 0x54, 0x41, 0x31];
    assert(r@ =~= probe_ack());
    r
}

fn probe_magic_bytes() -> (r: Vec<u8>)
    ensures
        r@ == probe_magic(),
{
    let r = vec![0x41u8, 0x54, 0x51, 0x31];
    assert(r@ =~= probe_magic());
    r
}

/// What to do with one UDP datagram.
#[derive(Debug, PartialEq, Eq)]
pub enum UdpOutcome {
    /// An authorized probe: answer with `"ATA1"`.
    ProbeAcknowledged,
    /// A probe without valid authentication: no answer.
    ProbeIgnored,
    /// The envelope does not carry the configured token.
    Unauthenticated,
    /// Not a valid ATP1 frame.
    Malformed(DecodeError),
    /// Deliver the frame; first cancel the touch of a restarted sender and
    /// note the frames lost since the previous one.
    Deliver { restarted: bool, lost: Option<u32>, frame: Frame },
    /// The retransmitted copy of an all-lifted frame: deliver it again.
    ReplayedLift(Frame),
    /// A superseded motion frame: drop it.
    Dropped,
}

pub open spec fn token_bytes(token: Option<&str>) -> Option<Seq<u8>> {
    match token {
        Some(t) => Some(t.spec_bytes()),
        None => None,
    }
}

/// Whether a probe's payload (what follows the magic) is authorized.
pub open spec fn probe_authorized(payload: Seq<u8>, token: Option<Seq<u8>>) -> bool {
    match token {
        Some(_) => spec_udp_payload(payload, token) == Some(Seq::<u8>::empty()),
        None => payload.len() == 0,
    }
}

pub open spec fn is_probe(buf: Seq<u8>) -> bool {
    buf.len() >= 4 && buf.subrange(0, 4) == probe_magic()
}

/// What the ingest filter's verdict on a decoded frame leads to.
pub open spec fn after_admit(verdict: Admit, f: FrameModel, out: UdpOutcome) -> bool {
    match verdict {
        Admit::Fresh { lost_since_last, sender_restarted } => out matches UdpOutcome::Deliver {
            restarted,
            lost,
            frame,
        } && restarted == sender_restarted && lost == lost_since_last && frame@ == f,
        Admit::Replay => if f.contacts.len() == 0 {
            out matches UdpOutcome::ReplayedLift(frame) && frame@ == f
        } else {
            out == UdpOutcome::Dropped
        },
        Admit::Stale => out == UdpOutcome::Dropped,
    }
}

/// Law: a datagram that repeats the sequence number of one the filter let
/// through from the same sender less than 600 ms earlier is passed on only as
/// a retransmitted lift (a frame with no contacts); any other such repeat is
/// dropped.
pub proof fn lemma_repeat_forwarded_only_as_lift(
    flow: FlowModel,
    first: FrameModel,
    t1: u64,
    second: FrameModel,
    t2: u64,
    out: UdpOutcome,
)
    requires
        spec_flow_admit(flow, first.seq, t1).0 != Admit::Replay,
        second.seq == first.seq,
        t1 <= t2,
        t2 - t1 < REPLAY_WINDOW_NS,
        after_admit(spec_flow_admit(spec_flow_admit(flow, first.seq, t1).1, second.seq, t2).0, second, out),
    ensures
        second.contacts.len() == 0 ==> (out matches UdpOutcome::ReplayedLift(fr) && fr@ == second),
        second.contacts.len() > 0 ==> out == UdpOutcome::Dropped,
{
    lemma_repeat_inside_window_is_replay(flow, first.seq, t1, t2);
}

/// Handles one datagram from `peer` arriving `now` nanoseconds after the
/// filter was made: probes are answered or ignored without touching the
/// filter; frames are authenticated, decoded and filtered.
pub fn handle_datagram(
    ingest: &mut UdpIngest,
    peer: PeerAddr,
    buf: &[u8],
    token: Option<&str>,
    now: u64,
) -> (r: UdpOutcome)
    requires
        old(ingest).wf(),
    ensures
        final(ingest).wf(),
        is_probe(buf@) ==> final(ingest)@ == old(ingest)@ && r == (if probe_authorized(
            buf@.subrange(4, buf@.len() as int),
            token_bytes(token),
        ) {
            UdpOutcome::ProbeAcknowledged
        } else {
            UdpOutcome::ProbeIgnored
        }),
        !is_probe(buf@) ==> match spec_udp_payload(buf@, token_bytes(token)) {
            None => r == UdpOutcome::Unauthenticated && final(ingest)@ == old(ingest)@,
            Some(payload) => match spec_decode(payload) {
                Err(e) => r == UdpOutcome::Malformed(e) && final(ingest)@ == old(ingest)@,
                Ok(f) => {
                    let (verdict, flow) = spec_flow_admit(flow_of(old(ingest)@, peer), f.seq, now);
                    &&& after_admit(verdict, f, r)
                    &&& flow_of(final(ingest)@, peer) == flow
                    &&& forall|p: PeerAddr|
                        p != peer ==> flow_of(final(ingest)@, p) == flow_of(old(ingest)@, p)
                },
            },
        },
{
    let magic = probe_magic_bytes();
    if bytes_starts_with(buf, magic.as_slice()) {
        let payload = vstd::slice::slice_subrange(buf, 4, buf.len());
        let authorized = match token {
            Some(_) => match authenticated_udp_payload(payload, token) {
                Some(p) => p.len() == 0,
                None => false,
            },
            None => payload.len() == 0,
        };
        proof {
            if authorized && token is Some {
                let p = spec_udp_payload(payload@, token_bytes(token))->Some_0;
                assert(p =~= Seq::<u8>::empty());
            }
        }
        return if authorized { UdpOutcome::ProbeAcknowledged } else { UdpOutcome::ProbeIgnored };
    }
    let payload = match authenticated_udp_payload(buf, token) {
        Some(p) => p,
        None => {
            return UdpOutcome::Unauthenticated;
        },
    };
    let frame = match decode(payload) {
        Ok(f) => f,
        Err(e) => {
            return UdpOutcome::Malformed(e);
        },
    };
    match ingest.admit_at(peer, frame.seq, now) {
        Admit::Fresh { lost_since_last, sender_restarted } => UdpOutcome::Deliver {
            restarted: sender_restarted,
            lost: lost_since_last,
            frame,
        },
        Admit::Replay => {
            if frame.contacts.len() == 0 {
                UdpOutcome::ReplayedLift(frame)
            } else {
                UdpOutcome::Dropped
            }
        },
        Admit::Stale => UdpOutcome::Dropped,
    }
}

// ---- WebSocket frames ----

/// The largest payload a client frame may carry.
pub const WS_MAX_PAYLOAD: u64 = 4096;

/// What follows the first two bytes of a frame header.
#[derive(Clone, Copy, Debug, PartialEq, Eq, Structural)]
pub enum WsLength {
    /// The 7-bit length is the payload length.
    Short(u8),
    /// A 16-bit big-endian length follows.
    Extended16,
    /// A 64-bit big-endian length follows.
    Extended64,
}

/// The fields of the first two header bytes.
#[derive(Clone, Copy, Debug, PartialEq, Eq, Structural)]
pub struct WsHeader {
    pub fin: bool,
    pub opcode: u8,
    pub masked: bool,
    pub length: WsLength,
}

pub open spec fn spec_ws_header(b0: u8, b1: u8) -> WsHeader {
    let len7 = b1 & 0x7f;
    WsHeader {
        fin: b0 & 0x80 != 0,
        opcode: b0 & 0x0f,
        masked: b1 & 0x80 != 0,
        length: if len7 == 126 {
            WsLength::Extended16
        } else if len7 == 127 {
            WsLength::Extended64
        } else {
            WsLength::Short(len7)
        },
    }
}

pub fn ws_header(b0: u8, b1: u8) -> (r: WsHeader)
    ensures
        r == spec_ws_header(b0, b1),
{
    let len7 = b1 & 0x7f;
    WsHeader {
        fin: b0 & 0x80 != 0,
        opcode: b0 & 0x0f,
        masked: b1 & 0x80 != 0,
        length: if len7 == 126 {
            WsLength::Extended16
        } else if len7 == 127 {
            WsLength::Extended64
        } else {
            WsLength::Short(len7)
        },
    }
}

/// Why a frame is refused.
#[derive(Clone, Copy, Debug, PartialEq, Eq, Structural)]
pub enum WsFrameError {
    /// An extended 64-bit length beyond the limit.
    TooLarge { len: u64 },
    /// Too long, unmasked, or fragmented.
    Unsupported { len: u64, masked: bool, fin: bool },
}

/// Checks the payload length of a frame: `ext` holds the extended length
/// bytes where the header announced them (big-endian).
pub open spec fn spec_ws_payload_len(h: WsHeader, ext: Seq<u8>) -> Result<u64, WsFrameError> {
    let len: u64 = match h.length {
        WsLength::Short(n) => n as u64,
        WsLength::Extended16 => (ext[0] as int * 256 + ext[1] as int) as u64,
        WsLength::Extended64 => be_u64(ext),
    };
    if h.length is Extended64 && len > WS_MAX_PAYLOAD {
        Err(WsFrameError::TooLarge { len })
    } else if len > WS_MAX_PAYLOAD || !h.masked || !h.fin {
        Err(WsFrameError::Unsupported { len, masked: h.masked, fin: h.fin })
    } else {
        Ok(len)
    }
}

/// Appends one byte to a big-endian number.
fn shift_in(v: u64, b: u8) -> (r: u64)
    requires
        v < 0x100_0000_0000_0000,
    ensures
        r == v * 256 + b,
{
    let r = (v << 8u64) | (b as u64);
    assert(r == v * 256 + b) by (bit_vector)
        requires
            v < 0x100_0000_0000_0000,
            r == (v << 8u64) | (b as u64),
    ;
    r
}

pub open spec fn be_u64(b: Seq<u8>) -> u64 {
    (((((((b[0] as int * 256 + b[1]) * 256 + b[2]) * 256 + b[3]) * 256 + b[4]) * 256 + b[5]) * 256
        + b[6]) * 256 + b[7]) as u64
}

pub fn ws_payload_len(h: WsHeader, ext: &[u8]) -> (r: Result<u64, WsFrameError>)
    requires
        h.length is Extended16 ==> ext@.len() == 2,
        h.length is Extended64 ==> ext@.len() == 8,
    ensures
        r == spec_ws_payload_len(h, ext@),
{
    let len: u64 = match h.length {
        WsLength::Short(n) => n as u64,
        WsLength::Extended16 => (ext[0] as u64) * 256 + ext[1] as u64,
        WsLength::Extended64 => {
            let v0 = ext[0] as u64;
            let v1 = shift_in(v0, ext[1]);
            let v2 = shift_in(v1, ext[2]);
            let v3 = shift_in(v2, ext[3]);
            let v4 = shift_in(v3, ext[4]);
            let v5 = shift_in(v4, ext[5]);
            let v6 = shift_in(v5, ext[6]);
            shift_in(v6, ext[7])
        },
    };
    let is64 = match h.length {
        WsLength::Extended64 => true,
        _ => false,
    };
    if is64 && len > WS_MAX_PAYLOAD {
        Err(WsFrameError::TooLarge { len })
    } else if len > WS_MAX_PAYLOAD || !h.masked || !h.fin {
        Err(WsFrameError::Unsupported { len, masked: h.masked, fin: h.fin })
    } else {
        Ok(len)
    }
}

/// Removes the client's mask: byte `i` is XORed with key byte `i % 4`.
pub fn unmask(payload: &mut Vec<u8>, key: &[u8])
    requires
        key@.len() == 4,
    ensures
        final(payload)@.len() == old(payload)@.len(),
        forall|i: int|
            0 <= i < old(payload)@.len() ==> #[trigger] final(payload)@[i] == old(payload)@[i] ^ key@[i % 4],
{
    let ghost orig = payload@;
    let mut i: usize = 0;
    while i < payload.len()
        invariant
            key@.len() == 4,
            payload@.len() == orig.len(),
            i <= orig.len(),
            forall|j: int| 0 <= j < i ==> #[trigger] payload@[j] == orig[j] ^ key@[j % 4],
            forall|j: int| i <= j < orig.len() ==> #[trigger] payload@[j] == orig[j],
        decreases orig.len() - i,
    {
        let b = payload[i] ^ key[i % 4];
        payload.set(i, b);
        i = i + 1;
    }
}

/// What a complete frame asks of the relay.
#[derive(Clone, Copy, Debug, PartialEq, Eq, Structural)]
pub enum WsAction {
    /// Close: stop relaying.
    Close,
    /// Ping: answer with an empty pong.
    Pong,
    /// A binary frame: decode it as ATP1.
    Binary,
    /// Text (status pings) and unknown opcodes are ignored.
    Ignore,
}

pub open spec fn spec_ws_action(opcode: u8) -> WsAction {
    if opcode == 0x8 {
        WsAction::Close
    } else if opcode == 0x9 {
        WsAction::Pong
    } else if opcode == 0x2 {
        WsAction::Binary
    } else {
        WsAction::Ignore
    }
}

pub fn ws_action(opcode: u8) -> (r: WsAction)
    ensures
        r == spec_ws_action(opcode),
{
    match opcode {
        0x8 => WsAction::Close,
        0x9 => WsAction::Pong,
        0x2 => WsAction::Binary,
        _ => WsAction::Ignore,
    }
}

/// The pong frame sent for a ping.
pub fn pong_frame() -> (r: Vec<u8>)
    ensures
        r@ == seq![0x8au8, 0x00u8],
{
    let r = vec![0x8au8, 0x00u8];
    assert(r@ =~= seq![0x8au8, 0x00u8]);
    r
}

// ---- the frame pump ----

/// Silence this long with contacts down is a link fault.
pub const IDLE_LIFT_AFTER_NS: u64 = 250_000_000;

/// What reaches the pump.
#[derive(Clone, Copy, Debug, PartialEq, Eq, Structural)]
pub enum PumpEvent {
    /// Frames were lost on the sender's stream.
    Gap { peer: PeerId, lost: u32 },
    /// The sender restarted its sequence numbers.
    Restart { peer: PeerId },
    /// A frame, and whether any contact is down in it.
    Frame { peer: PeerId, contacts_down: bool },
    /// Nothing arrived during one poll interval.
    Timeout,
}

/// What the pump does, in order.
#[derive(Clone, Copy, Debug, PartialEq, Eq, Structural)]
pub enum PumpAction {
    /// Report the loss of frames mid-stream.
    NoteGap(u32),
    /// Another peer took over the session.
    PeerChanged { from: PeerId },
    /// Cancel the touch in progress (a link fault, not a lift).
    CancelTouch,
    /// Forget the sender's scan-time offset.
    ResetClock,
    /// Hand the frame to the gesture engine.
    Deliver,
    /// Let the gesture engine run its idle timers.
    IdleTick,
}

pub struct PumpModel {
    pub peers: PeerGateModel,
    pub contacts_down: bool,
    pub last_arrival: u64,
}

/// The pump's state between events.
pub struct PumpState {
    peers: PeerGate,
    contacts_down: bool,
    last_arrival: u64,
}

impl View for PumpState {
    type V = PumpModel;

    closed spec fn view(&self) -> PumpModel {
        PumpModel { peers: self.peers@, contacts_down: self.contacts_down, last_arrival: self.last_arrival }
    }
}

/// The link went silent with contacts down.
pub open spec fn link_fault(contacts_down: bool, last_arrival: u64, now: u64) -> bool {
    contacts_down && now >= last_arrival && now - last_arrival > IDLE_LIFT_AFTER_NS
}

/// The silence check that follows an event: on a link fault, cancel the
/// touch and forget the clock.
pub open spec fn after_event(actions: Seq<PumpAction>, m: PumpModel, now: u64) -> (Seq<PumpAction>, PumpModel) {
    if link_fault(m.contacts_down, m.last_arrival, now) {
        (actions.push(PumpAction::CancelTouch).push(PumpAction::ResetClock), PumpModel { contacts_down: false, ..m })
    } else {
        (actions, m)
    }
}

/// The pump's reaction to one event at `now`: its actions and its next state.
pub open spec fn spec_pump_step(m: PumpModel, e: PumpEvent, now: u64) -> (Seq<PumpAction>, PumpModel) {
    match e {
        PumpEvent::Gap { peer, lost } => if m.peers.active != Some(peer) {
            (Seq::empty(), m)
        } else {
            after_event(seq![PumpAction::NoteGap(lost)], m, now)
        },
        PumpEvent::Restart { peer } => if m.peers.active != Some(peer) {
            (Seq::empty(), m)
        } else {
            let cancel: Seq<PumpAction> = if m.contacts_down { seq![PumpAction::CancelTouch] } else { Seq::empty() };
            after_event(cancel.push(PumpAction::ResetClock), PumpModel { contacts_down: false, ..m }, now)
        },
        PumpEvent::Frame { peer, contacts_down } => {
            let (decision, peers) = spec_observe(m.peers, peer, now);
            match decision {
                PeerDecision::IgnoreRetired => (Seq::empty(), PumpModel { peers, ..m }),
                PeerDecision::Accept { switched_from } => {
                    let switch: Seq<PumpAction> = match switched_from {
                        Some(from) => if m.contacts_down {
                            seq![PumpAction::PeerChanged { from }, PumpAction::CancelTouch, PumpAction::ResetClock]
                        } else {
                            seq![PumpAction::PeerChanged { from }, PumpAction::ResetClock]
                        },
                        None => Seq::empty(),
                    };
                    after_event(
                        switch.push(PumpAction::Deliver),
                        PumpModel { peers, contacts_down, last_arrival: now },
                        now,
                    )
                },
            }
        },
        PumpEvent::Timeout => after_event(seq![PumpAction::IdleTick], m, now),
    }
}

impl PumpState {
    pub open spec fn wf(&self) -> bool {
        self@.peers.wf()
    }

    pub fn new(now: u64) -> (r: Self)
        ensures
            r.wf(),
            r@.peers.active is None,
            !r@.contacts_down,
            r@.last_arrival == now,
    {
        PumpState { peers: PeerGate::new(), contacts_down: false, last_arrival: now }
    }

    fn check_silence(&mut self, actions: &mut Vec<PumpAction>, now: u64)
        ensures
            (final(actions)@, final(self)@) == after_event(old(actions)@, old(self)@, now),
            final(self).peers == old(self).peers,
    {
        if self.contacts_down && now >= self.last_arrival && now - self.last_arrival > IDLE_LIFT_AFTER_NS {
            self.contacts_down = false;
            actions.push(PumpAction::CancelTouch);
            actions.push(PumpAction::ResetClock);
        }
    }

    /// Reacts to one event at `now`.
    pub fn step(&mut self, e: PumpEvent, now: u64) -> (r: Vec<PumpAction>)
        requires
            old(self).wf(),
            now + PEER_QUARANTINE_NS <= u64::MAX,
        ensures
            final(self).wf(),
            (r@, final(self)@) == spec_pump_step(old(self)@, e, now),
    {
        let mut actions: Vec<PumpAction> = Vec::new();
        match e {
            PumpEvent::Gap { peer, lost } => {
                if self.peers.active() != Some(peer) {
                    return actions;
                }
                actions.push(PumpAction::NoteGap(lost));
                assert(actions@ =~= seq![PumpAction::NoteGap(lost)]);
                self.check_silence(&mut actions, now);
            },
            PumpEvent::Restart { peer } => {
                if self.peers.active() != Some(peer) {
                    return actions;
                }
                if self.contacts_down {
                    actions.push(PumpAction::CancelTouch);
                    self.contacts_down = false;
                }
                actions.push(PumpAction::ResetClock);
                proof {
                    let cancel: Seq<PumpAction> = if old(self)@.contacts_down { seq![PumpAction::CancelTouch] } else { Seq::empty() };
                    assert(actions@ =~= cancel.push(PumpAction::ResetClock));
                }
                self.check_silence(&mut actions, now);
            },
            PumpEvent::Frame { peer, contacts_down } => {
                match self.peers.observe(peer, now) {
                    PeerDecision::IgnoreRetired => {
                        return actions;
                    },
                    PeerDecision::Accept { switched_from } => {
                        match switched_from {
                            Some(from) => {
                                actions.push(PumpAction::PeerChanged { from });
                                if self.contacts_down {
                                    actions.push(PumpAction::CancelTouch);
                                }
                                actions.push(PumpAction::ResetClock);
                            },
                            None => {},
                        }
                        actions.push(PumpAction::Deliver);
                        self.contacts_down = contacts_down;
                        self.last_arrival = now;
                        proof {
                            let switch: Seq<PumpAction> = match switched_from {
                                Some(from) => if old(self)@.contacts_down {
                                    seq![PumpAction::PeerChanged { from }, PumpAction::CancelTouch, PumpAction::ResetClock]
                                } else {
                                    seq![PumpAction::PeerChanged { from }, PumpAction::ResetClock]
                                },
                                None => Seq::empty(),
                            };
                            assert(actions@ =~= switch.push(PumpAction::Deliver));
                        }
                        self.check_silence(&mut actions, now);
                    },
                }
            },
            PumpEvent::Timeout => {
                actions.push(PumpAction::IdleTick);
                assert(actions@ =~= seq![PumpAction::IdleTick]);
                self.check_silence(&mut actions, now);
            },
        }
        actions
    }
}

/// Law: silence with contacts down is a link fault: the next timeout
/// cancels the touch instead of completing it, and leaves no contact down.
pub proof fn lemma_silence_cancels_touch(m: PumpModel, now: u64)
    requires
        m.contacts_down,
        now >= m.last_arrival,
        now - m.last_arrival > IDLE_LIFT_AFTER_NS,
    ensures
        spec_pump_step(m, PumpEvent::Timeout, now).0 == seq![
            PumpAction::IdleTick,
            PumpAction::CancelTouch,
            PumpAction::ResetClock,
        ],
        !spec_pump_step(m, PumpEvent::Timeout, now).1.contacts_down,
{
    assert(seq![PumpAction::IdleTick].push(PumpAction::CancelTouch).push(PumpAction::ResetClock) =~= seq![
        PumpAction::IdleTick,
        PumpAction::CancelTouch,
        PumpAction::ResetClock,
    ]);
}

/// Law: after a link fault has cancelled the touch, further silence only
/// ticks: the touch is cancelled once.
pub proof fn lemma_silence_cancels_once(m: PumpModel, now: u64, later: u64)
    requires
        m.contacts_down,
        now >= m.last_arrival,
        now - m.last_arrival > IDLE_LIFT_AFTER_NS,
    ensures
        spec_pump_step(spec_pump_step(m, PumpEvent::Timeout, now).1, PumpEvent::Timeout, later).0
            == seq![PumpAction::IdleTick],
{
}

/// Law: a restart of the active sender's sequence numbers while contacts are
/// down cancels the touch first, and leaves no contact down.
pub proof fn lemma_restart_cancels_touch(m: PumpModel, peer: PeerId, now: u64)
    requires
        m.contacts_down,
        m.peers.active == Some(peer),
    ensures
        spec_pump_step(m, PumpEvent::Restart { peer }, now).0[0] == PumpAction::CancelTouch,
        !spec_pump_step(m, PumpEvent::Restart { peer }, now).1.contacts_down,
{
}

/// Law: only a frame is ever delivered: gaps, restarts and timeouts never
/// hand the gesture engine a frame of their own.
pub proof fn lemma_only_frames_deliver(m: PumpModel, e: PumpEvent, now: u64)
    requires
        !(e is Frame),
    ensures
        !spec_pump_step(m, e, now).0.contains(PumpAction::Deliver),
{
    let r = spec_pump_step(m, e, now).0;
    assert forall|i: int| 0 <= i < r.len() implies r[i] != PumpAction::Deliver by {}
}

/// The pump's actions over events in order, each with its arrival time, and
/// its state afterwards.
pub open spec fn pump_run(m: PumpModel, events: Seq<(PumpEvent, u64)>) -> (Seq<PumpAction>, PumpModel)
    decreases events.len(),
{
    if events.len() == 0 {
        (Seq::empty(), m)
    } else {
        let (before, m0) = pump_run(m, events.drop_last());
        let (e, t) = events.last();
        let (now, m1) = spec_pump_step(m0, e, t);
        (before + now, m1)
    }
}

/// How many times the actions cancel the touch.
pub open spec fn cancel_count(a: Seq<PumpAction>) -> nat {
    a.filter(|x: PumpAction| x == PumpAction::CancelTouch).len()
}

proof fn lemma_cancel_count_push(a: Seq<PumpAction>, x: PumpAction)
    ensures
        cancel_count(a.push(x)) == cancel_count(a) + (if x == PumpAction::CancelTouch { 1nat } else { 0nat }),
{
    reveal_with_fuel(Seq::filter, 1);
    assert(a.push(x).drop_last() =~= a);
}

proof fn lemma_cancel_count_add(a: Seq<PumpAction>, b: Seq<PumpAction>)
    ensures
        cancel_count(a + b) == cancel_count(a) + cancel_count(b),
{
    Seq::filter_distributes_over_add(a, b, |x: PumpAction| x == PumpAction::CancelTouch);
}

/// One event that is no frame: it cancels the touch exactly when it takes
/// the contacts down to none, delivers nothing, and keeps the arrival time.
proof fn lemma_non_frame_step(m: PumpModel, e: PumpEvent, t: u64)
    requires
        !(e is Frame),
    ensures
        cancel_count(spec_pump_step(m, e, t).0) + (if spec_pump_step(m, e, t).1.contacts_down { 1nat } else { 0nat })
            == (if m.contacts_down { 1nat } else { 0nat }),
        spec_pump_step(m, e, t).1.contacts_down ==> m.contacts_down,
        spec_pump_step(m, e, t).1.last_arrival == m.last_arrival,
        !spec_pump_step(m, e, t).0.contains(PumpAction::Deliver),
        e == PumpEvent::Timeout && link_fault(m.contacts_down, m.last_arrival, t) ==> !spec_pump_step(
            m,
            e,
            t,
        ).1.contacts_down,
{
    let empty = Seq::<PumpAction>::empty();
    assert(cancel_count(empty) == 0) by {
        reveal_with_fuel(Seq::filter, 1);
    }
    lemma_cancel_count_push(empty, PumpAction::IdleTick);
    lemma_cancel_count_push(empty, PumpAction::CancelTouch);
    lemma_cancel_count_push(empty.push(PumpAction::CancelTouch), PumpAction::ResetClock);
    lemma_cancel_count_push(empty, PumpAction::ResetClock);
    lemma_only_frames_deliver(m, e, t);
    match e {
        PumpEvent::Gap { peer, lost } => {
            let a = seq![PumpAction::NoteGap(lost)];
            assert(a == empty.push(PumpAction::NoteGap(lost)));
            lemma_cancel_count_push(empty, PumpAction::NoteGap(lost));
            lemma_cancel_count_push(a, PumpAction::CancelTouch);
            lemma_cancel_count_push(a.push(PumpAction::CancelTouch), PumpAction::ResetClock);
        },
        PumpEvent::Restart { peer } => {
            let cancel = if m.contacts_down { seq![PumpAction::CancelTouch] } else { empty };
            assert(seq![PumpAction::CancelTouch] == empty.push(PumpAction::CancelTouch));
            lemma_cancel_count_push(cancel, PumpAction::ResetClock);
        },
        PumpEvent::Timeout => {
            let a = seq![PumpAction::IdleTick];
            assert(a == empty.push(PumpAction::IdleTick));
            lemma_cancel_count_push(a, PumpAction::CancelTouch);
            lemma_cancel_count_push(a.push(PumpAction::CancelTouch), PumpAction::ResetClock);
        },
        PumpEvent::Frame { .. } => {},
    }
}

/// Law: while no frame arrives, the touch is cancelled at most once (and
/// only if contacts were down), nothing is delivered, and a timeout more than
/// 250 ms after the last frame with contacts down has cancelled it.
pub proof fn lemma_silence_cancels_touch_once(m: PumpModel, events: Seq<(PumpEvent, u64)>)
    requires
        forall|i: int| 0 <= i < events.len() ==> !((#[trigger] events[i]).0 is Frame),
    ensures
        cancel_count(pump_run(m, events).0) + (if pump_run(m, events).1.contacts_down { 1nat } else { 0nat })
            == (if m.contacts_down { 1nat } else { 0nat }),
        cancel_count(pump_run(m, events).0) <= 1,
        !pump_run(m, events).0.contains(PumpAction::Deliver),
        pump_run(m, events).1.last_arrival == m.last_arrival,
        m.contacts_down && events.len() > 0 && events.last().0 == PumpEvent::Timeout && link_fault(
            true,
            m.last_arrival,
            events.last().1,
        ) ==> cancel_count(pump_run(m, events).0) == 1,
    decreases events.len(),
{
    if events.len() == 0 {
        assert(cancel_count(Seq::<PumpAction>::empty()) == 0) by {
            reveal_with_fuel(Seq::filter, 1);
        }
    } else {
        let init = events.drop_last();
        assert forall|i: int| 0 <= i < init.len() implies !((#[trigger] init[i]).0 is Frame) by {
            assert(init[i] == events[i]);
        }
        lemma_silence_cancels_touch_once(m, init);
        let (before, m0) = pump_run(m, init);
        let (e, t) = events.last();
        assert(!(events[events.len() - 1].0 is Frame));
        lemma_non_frame_step(m0, e, t);
        let now = spec_pump_step(m0, e, t).0;
        lemma_cancel_count_add(before, now);
        if (before + now).contains(PumpAction::Deliver) {
            let k = choose|k: int| 0 <= k < (before + now).len() && (before + now)[k] == PumpAction::Deliver;
            if k < before.len() {
                assert(before[k] == PumpAction::Deliver);
            } else {
                assert(now[k - before.len()] == PumpAction::Deliver);
            }
        }
        if m.contacts_down && e == PumpEvent::Timeout && link_fault(true, m.last_arrival, t) {
            if m0.contacts_down {
                assert(link_fault(m0.contacts_down, m0.last_arrival, t));
            }
        }
    }
}

/// Law: when another peer takes over while contacts are down, the touch of
/// the previous peer is cancelled before the new peer's frame is delivered.
pub proof fn lemma_takeover_cancels_before_delivery(m: PumpModel, peer: PeerId, down: bool, now: u64)
    requires
        m.peers.wf(),
        m.contacts_down,
        m.peers.active is Some,
        m.peers.active != Some(peer),
        !crate::ingest::is_retired(crate::ingest::still_retired(m.peers.retired, now), peer),
        now + PEER_QUARANTINE_NS <= u64::MAX,
    ensures
        spec_pump_step(m, PumpEvent::Frame { peer, contacts_down: down }, now).0.subrange(0, 4) == seq![
            PumpAction::PeerChanged { from: m.peers.active->0 },
            PumpAction::CancelTouch,
            PumpAction::ResetClock,
            PumpAction::Deliver,
        ],
{
    let from = m.peers.active->0;
    let a = seq![PumpAction::PeerChanged { from }, PumpAction::CancelTouch, PumpAction::ResetClock].push(PumpAction::Deliver);
    assert(a =~= seq![
        PumpAction::PeerChanged { from },
        PumpAction::CancelTouch,
        PumpAction::ResetClock,
        PumpAction::Deliver,
    ]);
    assert(a.subrange(0, 4) =~= a);
}

/// Law: a frame from a peer still in quarantine does nothing.
pub proof fn lemma_retired_frame_ignored(m: PumpModel, peer: PeerId, down: bool, now: u64)
    requires
        crate::ingest::is_retired(crate::ingest::still_retired(m.peers.retired, now), peer),
    ensures
        spec_pump_step(m, PumpEvent::Frame { peer, contacts_down: down }, now).0 == Seq::<PumpAction>::empty(),
        spec_pump_step(m, PumpEvent::Frame { peer, contacts_down: down }, now).1.contacts_down == m.contacts_down,
{
}

} // verus!
