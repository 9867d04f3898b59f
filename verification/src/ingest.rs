//! Ingest filters for network frames: which peer owns the gesture session,
//! and which UDP sequence numbers are fresh, replayed, or stale.
//!
//! Times are nanoseconds on a monotonic clock.
use crate::proto::seq_distance;
use std::time::{Duration, Instant};
use vstd::prelude::*;

verus! {

/// A socket address: IPv4 addresses use the low 32 bits of `ip`; IPv6
/// addresses also carry their flow info and scope id.
#[derive(Clone, Copy, Debug, PartialEq, Eq, Hash, Structural)]
pub struct PeerAddr {
    pub v6: bool,
    pub ip: u128,
    pub port: u16,
    pub flowinfo: u32,
    pub scope_id: u32,
}

/// The transport is part of a peer's identity.
#[derive(Clone, Copy, Debug, PartialEq, Eq, Hash, Structural)]
pub enum PeerTransport {
    Udp,
    WebSocket,
}

#[derive(Clone, Copy, Debug, PartialEq, Eq, Hash, Structural)]
pub struct PeerId {
    pub transport: PeerTransport,
    pub addr: PeerAddr,
}

/// How long a source that lost ownership is ignored.
pub const PEER_QUARANTINE_NS: u64 = 600_000_000;

#[derive(Clone, Copy, Debug, PartialEq, Eq, Structural)]
pub enum PeerDecision {
    Accept { switched_from: Option<PeerId> },
    IgnoreRetired,
}

/// Decides which peer owns the touch session.
pub struct PeerGate {
    active: Option<PeerId>,
    retired: Vec<(PeerId, u64)>,
}

pub struct PeerGateModel {
    pub active: Option<PeerId>,
    /// Retired peers with the time their quarantine ends.
    pub retired: Seq<(PeerId, u64)>,
}

impl View for PeerGate {
    type V = PeerGateModel;

    closed spec fn view(&self) -> PeerGateModel {
        PeerGateModel { active: self.active, retired: self.retired@ }
    }
}

/// Whether `peer` is among the retired entries.
pub open spec fn is_retired(retired: Seq<(PeerId, u64)>, peer: PeerId) -> bool {
    exists|i: int| 0 <= i < retired.len() && (#[trigger] retired[i]).0 == peer
}

/// Retired entries whose quarantine is still running at `now`.
pub open spec fn still_retired(retired: Seq<(PeerId, u64)>, now: u64) -> Seq<(PeerId, u64)> {
    retired.filter(|e: (PeerId, u64)| e.1 > now)
}

impl PeerGateModel {
    /// No peer is retired twice, and the active peer is not retired.
    pub open spec fn wf(&self) -> bool {
        &&& forall|i: int, j: int|
            0 <= i < j < self.retired.len() ==> (#[trigger] self.retired[i]).0 != (
            #[trigger] self.retired[j]).0
        &&& (self.active matches Some(a) ==> !is_retired(self.retired, a))
    }
}

/// What `observe` decides for `peer` at time `now`, and the new state.
pub open spec fn spec_observe(g: PeerGateModel, peer: PeerId, now: u64) -> (
    PeerDecision,
    PeerGateModel,
) {
    let kept = still_retired(g.retired, now);
    if is_retired(kept, peer) {
        (PeerDecision::IgnoreRetired, PeerGateModel { active: g.active, retired: kept })
    } else if g.active == Some(peer) {
        (PeerDecision::Accept { switched_from: None }, PeerGateModel { active: g.active, retired: kept })
    } else {
        (
            PeerDecision::Accept { switched_from: g.active },
            PeerGateModel {
                active: Some(peer),
                retired: match g.active {
                    Some(prev) => kept.push((prev, (now + PEER_QUARANTINE_NS) as u64)),
                    None => kept,
                },
            },
        )
    }
}

impl PeerGate {
    pub fn new() -> (r: Self)
        ensures
            r@.active is None,
            r@.retired == Seq::<(PeerId, u64)>::empty(),
            r@.wf(),
    {
        PeerGate { active: None, retired: Vec::new() }
    }

    /// The peer that currently owns the session.
    pub fn active(&self) -> (r: Option<PeerId>)
        ensures
            r == self@.active,
    {
        self.active
    }

    pub fn observe(&mut self, peer: PeerId, now: u64) -> (r: PeerDecision)
        requires
            old(self)@.wf(),
            now + PEER_QUARANTINE_NS <= u64::MAX,
        ensures
            final(self)@.wf(),
            (r, final(self)@) == spec_observe(old(self)@, peer, now),
    {
        let ghost old_retired = self.retired@;
        let mut kept: Vec<(PeerId, u64)> = Vec::new();
        let mut i: usize = 0;
        while i < self.retired.len()
            invariant
                self.retired@ == old_retired,
                i <= old_retired.len(),
                kept@ == old_retired.take(i as int).filter(|e: (PeerId, u64)| e.1 > now),
            decreases old_retired.len() - i,
        {
            let e = self.retired[i];
            proof {
                reveal_with_fuel(Seq::filter, 1);
                assert(old_retired.take(i + 1).drop_last() =~= old_retired.take(i as int));
            }
            if e.1 > now {
                kept.push(e);
            }
            i = i + 1;
        }
        assert(old_retired.take(old_retired.len() as int) =~= old_retired);
        assert(kept@ == still_retired(old_retired, now));
        let mut found = false;
        let mut j: usize = 0;
        while j < kept.len()
            invariant
                j <= kept@.len(),
                found == exists|k: int| 0 <= k < j && (#[trigger] kept@[k]).0 == peer,
            decreases kept@.len() - j,
        {
            if kept[j].0 == peer {
                found = true;
            }
            j = j + 1;
        }
        proof {
            lemma_filter_keeps_wf(self@, now);
        }
        if found {
            self.retired = kept;
            return PeerDecision::IgnoreRetired;
        }
        if self.active == Some(peer) {
            self.retired = kept;
            return PeerDecision::Accept { switched_from: None };
        }
        let switched_from = self.active;
        let ghost before = kept@;
        assert(!is_retired(before, peer));
        assert(forall|i: int, j: int| 0 <= i < j < before.len() ==> (
                    #[trigger] before[i]).0 != (#[trigger] before[j]).0);
        self.active = Some(peer);
        match switched_from {
            Some(prev) => {
                kept.push((prev, now + PEER_QUARANTINE_NS));
                proof {
                    assert(!is_retired(before, prev));
                    assert forall|i: int, j: int| 0 <= i < j < kept@.len() implies (
                    #[trigger] kept@[i]).0 != (#[trigger] kept@[j]).0 by {
                        assert(before[i] == kept@[i]);
                        if j < kept@.len() - 1 {
                            assert(before[j] == kept@[j]);
                        }
                    }
                    assert(!is_retired(kept@, peer)) by {
                        if is_retired(kept@, peer) {
                            let k = choose|k: int| 0 <= k < kept@.len() && (#[trigger] kept@[k]).0 == peer;
                            if k < before.len() {
                                assert(before[k] == kept@[k]);
                            }
                        }
                    }
                }
            },
            None => {},
        }
        assert(!is_retired(kept@, peer));
        assert(forall|i: int, j: int| 0 <= i < j < kept@.len() ==> (
                    #[trigger] kept@[i]).0 != (#[trigger] kept@[j]).0);
        self.retired = kept;
        PeerDecision::Accept { switched_from }
    }
}

/// Filtering the retired list keeps it well formed.
proof fn lemma_filter_keeps_wf(g: PeerGateModel, now: u64)
    requires
        g.wf(),
    ensures
        (PeerGateModel { active: g.active, retired: still_retired(g.retired, now) }).wf(),
        forall|i: int, j: int|
            0 <= i < j < still_retired(g.retired, now).len() ==> (#[trigger] still_retired(
                g.retired,
                now,
            )[i]).0 != (#[trigger] still_retired(g.retired, now)[j]).0,
        forall|p: PeerId| is_retired(still_retired(g.retired, now), p) ==> is_retired(g.retired, p),
{
    let kept = still_retired(g.retired, now);
    assert forall|p: PeerId| is_retired(kept, p) implies is_retired(g.retired, p) by {
        let i = choose|i: int| 0 <= i < kept.len() && (#[trigger] kept[i]).0 == p;
        assert(g.retired.contains(kept[i])) by {
            g.retired.lemma_filter_contains_rev(|e: (PeerId, u64)| e.1 > now, kept[i]);
        }
    }
    assert forall|i: int, j: int| 0 <= i < j < kept.len() implies (#[trigger] kept[i]).0 != (
    #[trigger] kept[j]).0 by {
        lemma_filter_index_order(g.retired, now, i, j);
    }
}

/// Two positions of the filtered list come from two distinct positions of the original.
proof fn lemma_filter_index_order(s: Seq<(PeerId, u64)>, now: u64, i: int, j: int)
    requires
        0 <= i < j < still_retired(s, now).len(),
    ensures
        exists|a: int, b: int|
            0 <= a < b < s.len() && s[a] == still_retired(s, now)[i] && s[b] == still_retired(
                s,
                now,
            )[j],
    decreases s.len(),
{
    reveal_with_fuel(Seq::filter, 1);
    let kept = still_retired(s, now);
    let init = still_retired(s.drop_last(), now);
    assert(s.len() > 0);
    if s.last().1 > now {
        assert(kept == init.push(s.last()));
        if j < init.len() {
            lemma_filter_index_order(s.drop_last(), now, i, j);
            let (a, b) = choose|a: int, b: int|
                0 <= a < b < s.drop_last().len() && s.drop_last()[a] == init[i]
                    && s.drop_last()[b] == init[j];
            assert(s[a] == kept[i] && s[b] == kept[j]);
        } else {
            assert(j == init.len());
            assert(init.contains(init[i]));
            s.drop_last().lemma_filter_contains_rev(|e: (PeerId, u64)| e.1 > now, init[i]);
            let a = choose|a: int| 0 <= a < s.drop_last().len() && s.drop_last()[a] == init[i];
            assert(s[a] == kept[i] && s[s.len() - 1] == kept[j]);
        }
    } else {
        assert(kept == init);
        lemma_filter_index_order(s.drop_last(), now, i, j);
        let (a, b) = choose|a: int, b: int|
            0 <= a < b < s.drop_last().len() && s.drop_last()[a] == init[i] && s.drop_last()[b]
                == init[j];
        assert(s[a] == kept[i] && s[b] == kept[j]);
    }
}

/// Law: after the session moves from `old_peer` to `new_peer` at `t`, frames
/// from `old_peer` are ignored until the quarantine ends.
pub proof fn lemma_switch_quarantines(g: PeerGateModel, old_peer: PeerId, new_peer: PeerId, t: u64, t2: u64)
    requires
        g.wf(),
        g.active == Some(old_peer),
        old_peer != new_peer,
        !is_retired(still_retired(g.retired, t), new_peer),
        t + PEER_QUARANTINE_NS <= u64::MAX,
        t2 < t + PEER_QUARANTINE_NS,
    ensures
        spec_observe(g, new_peer, t).0 == (PeerDecision::Accept { switched_from: Some(old_peer) }),
        spec_observe(spec_observe(g, new_peer, t).1, old_peer, t2).0 == PeerDecision::IgnoreRetired,
{
    let g2 = spec_observe(g, new_peer, t).1;
    let kept = still_retired(g.retired, t);
    assert(g2.retired == kept.push((old_peer, (t + PEER_QUARANTINE_NS) as u64)));
    let k2 = still_retired(g2.retired, t2);
    let e = (old_peer, (t + PEER_QUARANTINE_NS) as u64);
    assert(g2.retired.contains(e)) by {
        assert(g2.retired[g2.retired.len() - 1] == e);
    }
    g2.retired.lemma_filter_contains(|x: (PeerId, u64)| x.1 > t2, g2.retired.len() - 1);
    assert(k2.contains(e));
    let i = choose|i: int| 0 <= i < k2.len() && k2[i] == e;
    assert((k2[i]).0 == old_peer);
}


/// The monotonic clock.
#[verifier::external_type_specification]
#[verifier::external_body]
pub struct ExInstant(Instant);

/// Calls `Instant::now`; nothing is promised of the instant it returns.
#[verifier::external_body]
fn instant_now() -> Instant {
    Instant::now()
}

/// Calls `Instant::elapsed`: the time since `epoch` on the monotonic clock.
/// It depends on when the call is made, so nothing is promised of it.
#[verifier::external_body]
fn elapsed_since(epoch: &Instant) -> Duration {
    epoch.elapsed()
}

/// Calls `Duration::as_nanos`: the span in whole nanoseconds. Nothing about
/// the span is known here, so nothing is stated of the number.
#[verifier::external_body]
fn duration_nanos(d: Duration) -> u128 {
    d.as_nanos()
}

/// An identical sequence number inside this window is a safety copy;
/// later it is a fresh session of a restarted sender.
pub const REPLAY_WINDOW_NS: u64 = 600_000_000;

/// Losses are reported only while traffic flows.
pub const GAP_LOG_WINDOW_NS: u64 = 2_000_000_000;

/// A backward jump at least this large is a sender restart.
pub const SEQ_RESTART_DISTANCE: i64 = 1_000_000;

/// Nanoseconds from `at` to `now`, zero when `at` lies ahead.
pub open spec fn elapsed_ns(now: u64, at: u64) -> int {
    if now >= at { now - at } else { 0 }
}

/// What the UDP filter decides about one sequence number.
#[derive(Clone, Copy, Debug, PartialEq, Eq, Structural)]
pub enum Admit {
    /// A new forward number (a serial wrap included).
    Fresh { lost_since_last: Option<u32>, sender_restarted: bool },
    /// The same number inside the replay window.
    Replay,
    /// An unseen number behind the high-water mark.
    Stale,
}

/// State for one UDP sender. Recently seen numbers are kept as a sequence
/// that every packet filters by arrival time, as a map pruned with `retain`
/// would be (vstd specifies no `retain` on `HashMap`); each number occurs in it
/// at most once (`lemma_seen_numbers_distinct`).
pub struct UdpFlow {
    seen: Vec<(u32, u64)>,
    last: Option<(u32, u64)>,
}

pub struct FlowModel {
    /// Recently seen numbers with the time they arrived.
    pub seen: Seq<(u32, u64)>,
    /// The high-water mark and its arrival time.
    pub last: Option<(u32, u64)>,
}

impl View for UdpFlow {
    type V = FlowModel;

    closed spec fn view(&self) -> FlowModel {
        FlowModel { seen: self.seen@, last: self.last }
    }
}

/// The flow of a sender that has sent nothing yet.
pub open spec fn empty_flow() -> FlowModel {
    FlowModel { seen: Seq::empty(), last: None }
}

/// The entries still inside the replay window at `now`.
pub open spec fn recent(seen: Seq<(u32, u64)>, now: u64) -> Seq<(u32, u64)> {
    seen.filter(|e: (u32, u64)| elapsed_ns(now, e.1) < REPLAY_WINDOW_NS)
}

pub open spec fn has_seq(seen: Seq<(u32, u64)>, seq: u32) -> bool {
    exists|i: int| 0 <= i < seen.len() && (#[trigger] seen[i]).0 == seq
}

/// The decision for `seq` arriving at `now` on flow `f`, and the flow afterwards.
pub open spec fn spec_flow_admit(f: FlowModel, seq: u32, now: u64) -> (Admit, FlowModel) {
    let kept = recent(f.seen, now);
    if has_seq(kept, seq) {
        (Admit::Replay, FlowModel { seen: kept, last: f.last })
    } else {
        let seen = kept.push((seq, now));
        match f.last {
            None => (
                Admit::Fresh { lost_since_last: None, sender_restarted: false },
                FlowModel { seen, last: Some((seq, now)) },
            ),
            Some((last_seq, last_at)) => {
                let d = seq_distance(seq, last_seq);
                if d < 0 {
                    if d <= -SEQ_RESTART_DISTANCE {
                        (
                            Admit::Fresh { lost_since_last: None, sender_restarted: true },
                            FlowModel { seen, last: Some((seq, now)) },
                        )
                    } else {
                        (Admit::Stale, FlowModel { seen, last: f.last })
                    }
                } else {
                    let lost = if elapsed_ns(now, last_at) < GAP_LOG_WINDOW_NS && d > 1 {
                        Some((d - 1) as u32)
                    } else {
                        None
                    };
                    (
                        Admit::Fresh { lost_since_last: lost, sender_restarted: false },
                        FlowModel { seen, last: Some((seq, now)) },
                    )
                }
            },
        }
    }
}

/// No number occurs twice among the seen entries.
pub open spec fn numbers_distinct(seen: Seq<(u32, u64)>) -> bool {
    forall|i: int, j: int| 0 <= i < j < seen.len() ==> (#[trigger] seen[i]).0 != (#[trigger] seen[j]).0
}

proof fn lemma_recent_distinct(seen: Seq<(u32, u64)>, now: u64)
    requires
        numbers_distinct(seen),
    ensures
        numbers_distinct(recent(seen, now)),
    decreases seen.len(),
{
    reveal_with_fuel(Seq::filter, 1);
    if seen.len() > 0 {
        let init = seen.drop_last();
        assert forall|i: int, j: int| 0 <= i < j < init.len() implies (#[trigger] init[i]).0 != (
        #[trigger] init[j]).0 by {
            assert(init[i] == seen[i] && init[j] == seen[j]);
        }
        lemma_recent_distinct(init, now);
        let k = recent(init, now);
        let last = seen.last();
        if elapsed_ns(now, last.1) < REPLAY_WINDOW_NS {
            assert(recent(seen, now) == k.push(last));
            assert forall|i: int| 0 <= i < k.len() implies (#[trigger] k[i]).0 != last.0 by {
                init.lemma_filter_contains_rev(|e: (u32, u64)| elapsed_ns(now, e.1) < REPLAY_WINDOW_NS, k[i]);
                let a = choose|a: int| 0 <= a < init.len() && init[a] == k[i];
                assert(seen[a] == k[i]);
                assert(seen[seen.len() - 1] == last);
            }
            let r = k.push(last);
            assert forall|i: int, j: int| 0 <= i < j < r.len() implies (#[trigger] r[i]).0 != (
            #[trigger] r[j]).0 by {
                if j == r.len() - 1 {
                    assert(r[i] == k[i]);
                } else {
                    assert(r[i] == k[i] && r[j] == k[j]);
                }
            }
        } else {
            assert(recent(seen, now) == k);
        }
    }
}

/// Law: each sequence number occurs at most once in a flow's record of seen
/// numbers, whatever arrives.
pub proof fn lemma_seen_numbers_distinct(f: FlowModel, seq: u32, now: u64)
    requires
        numbers_distinct(f.seen),
    ensures
        numbers_distinct(spec_flow_admit(f, seq, now).1.seen),
{
    lemma_recent_distinct(f.seen, now);
    let kept = recent(f.seen, now);
    if !has_seq(kept, seq) {
        let r = kept.push((seq, now));
        assert forall|i: int, j: int| 0 <= i < j < r.len() implies (#[trigger] r[i]).0 != (
        #[trigger] r[j]).0 by {
            if j == r.len() - 1 {
                assert(r[i] == kept[i]);
            } else {
                assert(r[i] == kept[i] && r[j] == kept[j]);
            }
        }
    }
}

impl UdpFlow {
    fn step(&self, seq: u32, now: u64) -> (r: (Admit, UdpFlow))
        ensures
            (r.0, r.1@) == spec_flow_admit(self@, seq, now),
    {
        let mut kept: Vec<(u32, u64)> = Vec::new();
        let mut i: usize = 0;
        while i < self.seen.len()
            invariant
                i <= self.seen@.len(),
                kept@ == self.seen@.take(i as int).filter(
                    |e: (u32, u64)| elapsed_ns(now, e.1) < REPLAY_WINDOW_NS,
                ),
            decreases self.seen@.len() - i,
        {
            let e = self.seen[i];
            proof {
                reveal_with_fuel(Seq::filter, 1);
                assert(self.seen@.take(i + 1).drop_last() =~= self.seen@.take(i as int));
            }
            let age: u64 = if now >= e.1 { now - e.1 } else { 0 };
            if age < REPLAY_WINDOW_NS {
                kept.push(e);
            }
            i = i + 1;
        }
        assert(self.seen@.take(self.seen@.len() as int) =~= self.seen@);
        assert(kept@ == recent(self.seen@, now));
        let mut found = false;
        let mut j: usize = 0;
        while j < kept.len()
            invariant
                j <= kept@.len(),
                found == exists|k: int| 0 <= k < j && (#[trigger] kept@[k]).0 == seq,
            decreases kept@.len() - j,
        {
            if kept[j].0 == seq {
                found = true;
            }
            j = j + 1;
        }
        if found {
            return (Admit::Replay, UdpFlow { seen: kept, last: self.last });
        }
        kept.push((seq, now));
        match self.last {
            None => (
                Admit::Fresh { lost_since_last: None, sender_restarted: false },
                UdpFlow { seen: kept, last: Some((seq, now)) },
            ),
            Some((last_seq, last_at)) => {
                let w = seq.wrapping_sub(last_seq);
                let dist: i64 = if w >= 0x8000_0000u32 {
                    w as i64 - 0x1_0000_0000i64
                } else {
                    w as i64
                };
                if dist < 0 {
                    if dist <= -SEQ_RESTART_DISTANCE {
                        (
                            Admit::Fresh { lost_since_last: None, sender_restarted: true },
                            UdpFlow { seen: kept, last: Some((seq, now)) },
                        )
                    } else {
                        (Admit::Stale, UdpFlow { seen: kept, last: self.last })
                    }
                } else {
                    let since: u64 = if now >= last_at { now - last_at } else { 0 };
                    let lost = if since < GAP_LOG_WINDOW_NS && dist > 1 {
                        Some((dist - 1) as u32)
                    } else {
                        None
                    };
                    (
                        Admit::Fresh { lost_since_last: lost, sender_restarted: false },
                        UdpFlow { seen: kept, last: Some((seq, now)) },
                    )
                }
            },
        }
    }
}

/// The flow kept for `peer`; a sender not seen yet has an empty flow.
pub open spec fn flow_of(flows: Seq<(PeerAddr, FlowModel)>, peer: PeerAddr) -> FlowModel
    decreases flows.len(),
{
    if flows.len() == 0 {
        empty_flow()
    } else if flows.last().0 == peer {
        flows.last().1
    } else {
        flow_of(flows.drop_last(), peer)
    }
}

/// Per-sender filter for unordered, lossy UDP.
pub struct UdpIngest {
    epoch: Instant,
    flows: Vec<(PeerAddr, UdpFlow)>,
}

impl View for UdpIngest {
    type V = Seq<(PeerAddr, FlowModel)>;

    closed spec fn view(&self) -> Seq<(PeerAddr, FlowModel)> {
        self.flows@.map_values(|e: (PeerAddr, UdpFlow)| (e.0, e.1@))
    }
}

/// No sender has two flows.
pub open spec fn flows_wf(flows: Seq<(PeerAddr, FlowModel)>) -> bool {
    forall|i: int, j: int|
        0 <= i < j < flows.len() ==> (#[trigger] flows[i]).0 != (#[trigger] flows[j]).0
}

/// Replacing the one entry of `peer` changes its flow and no other.
proof fn lemma_flow_of_update(
    flows: Seq<(PeerAddr, FlowModel)>,
    k: int,
    peer: PeerAddr,
    f: FlowModel,
    p: PeerAddr,
)
    requires
        flows_wf(flows),
        0 <= k < flows.len(),
        flows[k].0 == peer,
    ensures
        flows_wf(flows.update(k, (peer, f))),
        flow_of(flows.update(k, (peer, f)), p) == (if p == peer { f } else { flow_of(flows, p) }),
        flows[k].1 == flow_of(flows, peer),
    decreases flows.len(),
{
    let u = flows.update(k, (peer, f));
    assert forall|i: int, j: int| 0 <= i < j < u.len() implies (#[trigger] u[i]).0 != (
    #[trigger] u[j]).0 by {
        assert(flows[i].0 != flows[j].0);
    }
    if k == flows.len() - 1 {
        assert(u.drop_last() =~= flows.drop_last());
    } else {
        assert(u.drop_last() =~= flows.drop_last().update(k, (peer, f)));
        assert(flows.last().0 != peer) by {
            assert(flows[k].0 != flows[flows.len() - 1].0);
        }
        assert(flows_wf(flows.drop_last()));
        lemma_flow_of_update(flows.drop_last(), k, peer, f, p);
    }
    lemma_flow_of_entry(flows, k);
}

/// With distinct senders, the flow of the sender at position `k` is the entry there.
proof fn lemma_flow_of_entry(flows: Seq<(PeerAddr, FlowModel)>, k: int)
    requires
        flows_wf(flows),
        0 <= k < flows.len(),
    ensures
        flow_of(flows, flows[k].0) == flows[k].1,
    decreases flows.len(),
{
    if k < flows.len() - 1 {
        assert(flows[k].0 != flows[flows.len() - 1].0);
        assert(flows_wf(flows.drop_last()));
        assert(flows.drop_last()[k] == flows[k]);
        lemma_flow_of_entry(flows.drop_last(), k);
    }
}

/// A sender with no entry has the empty flow.
proof fn lemma_flow_of_absent(flows: Seq<(PeerAddr, FlowModel)>, peer: PeerAddr)
    requires
        forall|i: int| 0 <= i < flows.len() ==> (#[trigger] flows[i]).0 != peer,
    ensures
        flow_of(flows, peer) == empty_flow(),
    decreases flows.len(),
{
    if flows.len() > 0 {
        assert(flows[flows.len() - 1].0 != peer);
        assert forall|i: int| 0 <= i < flows.drop_last().len() implies (
        #[trigger] flows.drop_last()[i]).0 != peer by {
            assert(flows[i].0 != peer);
        }
        lemma_flow_of_absent(flows.drop_last(), peer);
    }
}

impl UdpIngest {
    pub fn new() -> (r: Self)
        ensures
            r@ == Seq::<(PeerAddr, FlowModel)>::empty(),
    {
        UdpIngest { epoch: instant_now(), flows: Vec::new() }
    }

    pub open spec fn wf(&self) -> bool {
        flows_wf(self@)
    }

    /// Filters `seq` from `peer` arriving `now` nanoseconds after the filter
    /// was made. Only the flow of `peer` changes.
    pub fn admit_at(&mut self, peer: PeerAddr, seq: u32, now: u64) -> (r: Admit)
        requires
            old(self).wf(),
        ensures
            final(self).wf(),
            (r, flow_of(final(self)@, peer)) == spec_flow_admit(flow_of(old(self)@, peer), seq, now),
            forall|p: PeerAddr| p != peer ==> flow_of(final(self)@, p) == flow_of(old(self)@, p),
    {
        let ghost old_view = self@;
        let mut k: usize = 0;
        while k < self.flows.len()
            invariant
                k <= self.flows@.len(),
                self@ == old_view,
                forall|i: int| 0 <= i < k ==> (#[trigger] self.flows@[i]).0 != peer,
            ensures
                k <= self.flows@.len(),
                self@ == old_view,
                forall|i: int| 0 <= i < k ==> (#[trigger] self.flows@[i]).0 != peer,
                k < self.flows@.len() ==> self.flows@[k as int].0 == peer,
            decreases self.flows@.len() - k,
        {
            if self.flows[k].0 == peer {
                break;
            }
            k = k + 1;
        }
        if k < self.flows.len() {
            let (r, nf) = self.flows[k].1.step(seq, now);
            proof {
                assert(old_view[k as int] == (peer, self.flows@[k as int].1@));
                lemma_flow_of_entry(old_view, k as int);
            }
            let ghost nfv = nf@;
            self.flows.set(k, (peer, nf));
            proof {
                assert(self@ =~= old_view.update(k as int, (peer, nfv)));
                assert forall|p: PeerAddr| #[trigger] flow_of(self@, p) == (if p == peer { nfv } else { flow_of(old_view, p) }) by {
                    lemma_flow_of_update(old_view, k as int, peer, nfv, p);
                }
                lemma_flow_of_update(old_view, k as int, peer, nfv, peer);
            }
            r
        } else {
            proof {
                assert forall|i: int| 0 <= i < old_view.len() implies (#[trigger] old_view[i]).0 != peer by {
                    assert(old_view[i] == (self.flows@[i].0, self.flows@[i].1@));
                }
                lemma_flow_of_absent(old_view, peer);
            }
            let fresh = UdpFlow { seen: Vec::new(), last: None };
            assert(fresh@ == empty_flow());
            let (r, nf) = fresh.step(seq, now);
            let ghost nfv = nf@;
            self.flows.push((peer, nf));
            proof {
                assert(self@ =~= old_view.push((peer, nfv)));
                assert(self@.drop_last() =~= old_view);
                assert forall|i: int, j: int| 0 <= i < j < self@.len() implies (#[trigger] self@[i]).0
                    != (#[trigger] self@[j]).0 by {
                    if j == self@.len() - 1 {
                        assert(self@[i] == old_view[i]);
                    } else {
                        assert(self@[i] == old_view[i] && self@[j] == old_view[j]);
                    }
                }
            }
            r
        }
    }

    /// Filters `seq` from `peer` at the current time of the monotonic clock.
    pub fn admit_now(&mut self, peer: PeerAddr, seq: u32) -> (r: Admit)
        requires
            old(self).wf(),
        ensures
            final(self).wf(),
            exists|now: u64|
                (r, flow_of(final(self)@, peer)) == spec_flow_admit(
                    flow_of(old(self)@, peer),
                    seq,
                    now,
                ),
            forall|p: PeerAddr| p != peer ==> flow_of(final(self)@, p) == flow_of(old(self)@, p),
    {
        let n = duration_nanos(elapsed_since(&self.epoch));
        let now: u64 = if n > u64::MAX as u128 { u64::MAX } else { n as u64 };
        self.admit_at(peer, seq, now)
    }
}

/// Law: a number that was let through is a replay when it arrives again
/// inside the replay window.
pub proof fn lemma_repeat_inside_window_is_replay(f: FlowModel, seq: u32, t: u64, t2: u64)
    requires
        spec_flow_admit(f, seq, t).0 != Admit::Replay,
        t <= t2,
        t2 - t < REPLAY_WINDOW_NS,
    ensures
        spec_flow_admit(spec_flow_admit(f, seq, t).1, seq, t2).0 == Admit::Replay,
{
    let seen = spec_flow_admit(f, seq, t).1.seen;
    let last = seen.len() - 1;
    assert(seen[last] == (seq, t));
    seen.lemma_filter_contains(|e: (u32, u64)| elapsed_ns(t2, e.1) < REPLAY_WINDOW_NS, last);
    let r = recent(seen, t2);
    assert(r.contains((seq, t)));
    let i = choose|i: int| 0 <= i < r.len() && r[i] == (seq, t);
    assert(r[i].0 == seq);
}

/// Law: a number accepted as fresh that arrives again after the replay
/// window is a fresh session of a restarted sender: admitted, with no loss.
pub proof fn lemma_repeat_after_window_is_fresh(f: FlowModel, seq: u32, t: u64, t2: u64)
    requires
        spec_flow_admit(f, seq, t).0 is Fresh,
        t <= t2,
        t2 - t >= REPLAY_WINDOW_NS,
    ensures
        spec_flow_admit(spec_flow_admit(f, seq, t).1, seq, t2).0 == (Admit::Fresh {
            lost_since_last: None,
            sender_restarted: false,
        }),
{
    let kept = recent(f.seen, t);
    let seen = spec_flow_admit(f, seq, t).1.seen;
    assert(seen == kept.push((seq, t)));
    let pred = |e: (u32, u64)| elapsed_ns(t2, e.1) < REPLAY_WINDOW_NS;
    let r = recent(seen, t2);
    assert(!has_seq(r, seq)) by {
        if has_seq(r, seq) {
            let i = choose|i: int| 0 <= i < r.len() && (#[trigger] r[i]).0 == seq;
            assert(r.contains(r[i]));
            seen.lemma_filter_contains_rev(pred, r[i]);
            seen.lemma_filter_pred(pred, i);
            let j = choose|j: int| 0 <= j < seen.len() && seen[j] == r[i];
            if j < kept.len() {
                assert(kept[j] == seen[j]);
                assert(has_seq(kept, seq));
            }
        }
    }
}

} // verus!
