//! The peer protocol of a node: probing peers, answering probes and recording what comes back.
use std::collections::HashMap;

use vstd::prelude::*;

use crate::binary64::{Binary64, ONE_BITS};
use crate::config::{Config, PeerEntry};
use crate::net::pending::{is_outcome, PendingRequest, ResponseOutcome};
use crate::net::proto::{
    decode_request, decode_response, decodes_to_request, decodes_to_response, encode_request,
    law_request_round_trip, law_request_starts_with_version_and_kind, law_response_round_trip,
    law_response_starts_with_version_and_kind, request_bytes, response_bytes, Header, TimeRequest,
    TimeResponse, WireError, MSG_REQ, MSG_RESP, REQUEST_LEN, RESPONSE_LEN, WIRE_VERSION,
};
use crate::store::keys::{op_views, peer_series, peer_series_key, StoreOp, StoreOpView};
use crate::text::{decimal, push_decimal};
use crate::time::calc::{delay_of, offset_of};
use crate::util::{epoch_ns, wall_clock_ns};

verus! {

/// Longest datagram that is received whole.
pub const MAX_PACKET: usize = 512;

/// The quality a node reports of itself.
pub const SERVER_QUALITY: u32 = 100;

/// What a datagram claims to be.
#[derive(Clone, Copy, Debug, PartialEq, Eq, Structural)]
pub enum Datagram {
    /// Too short or of no known kind.
    Ignored,
    Request,
    Response,
}

/// See [`classify`].
pub open spec fn class_of(datagram: Seq<u8>) -> Datagram {
    if datagram.len() < 2 {
        Datagram::Ignored
    } else if datagram[1] == MSG_REQ {
        Datagram::Request
    } else if datagram[1] == MSG_RESP {
        Datagram::Response
    } else {
        Datagram::Ignored
    }
}

/// What a datagram claims to be by its kind byte.
pub fn classify(datagram: &[u8]) -> (class: Datagram)
    ensures
        class == class_of(datagram@),
{
    if datagram.len() < 2 {
        return Datagram::Ignored;
    }
    match datagram[1] {
        MSG_REQ => Datagram::Request,
        MSG_RESP => Datagram::Response,
        _ => Datagram::Ignored,
    }
}

/// The request in a datagram; `None` for one of another protocol version.
pub fn open_request(datagram: &[u8]) -> (req: Result<Option<TimeRequest>, WireError>)
    ensures
        match req {
            Err(e) => e == WireError::Truncated && datagram@.len() < REQUEST_LEN,
            Ok(None) => datagram@.len() >= REQUEST_LEN && datagram@[0] != WIRE_VERSION,
            Ok(Some(r)) => decodes_to_request(datagram@, r) && datagram@[0] == WIRE_VERSION
                && r.header.ver == WIRE_VERSION,
        },
{
    match decode_request(datagram) {
        Err(e) => Err(e),
        Ok(req) => {
            proof {
                law_request_starts_with_version_and_kind(req);
                assert(datagram@[0] == datagram@.subrange(0, REQUEST_LEN as int)[0]);
            }
            if req.header.ver != WIRE_VERSION {
                Ok(None)
            } else {
                Ok(Some(req))
            }
        },
    }
}

/// The response in a datagram; `None` for one of another protocol version.
pub fn open_response(datagram: &[u8]) -> (resp: Result<Option<TimeResponse>, WireError>)
    ensures
        match resp {
            Err(e) => e == WireError::Truncated && datagram@.len() < RESPONSE_LEN,
            Ok(None) => datagram@.len() >= RESPONSE_LEN && datagram@[0] != WIRE_VERSION,
            Ok(Some(r)) => decodes_to_response(datagram@, r) && datagram@[0] == WIRE_VERSION
                && r.header.ver == WIRE_VERSION,
        },
{
    match decode_response(datagram) {
        Err(e) => Err(e),
        Ok(resp) => {
            proof {
                law_response_starts_with_version_and_kind(resp);
                assert(datagram@[0] == datagram@.subrange(0, RESPONSE_LEN as int)[0]);
            }
            if resp.header.ver != WIRE_VERSION {
                Ok(None)
            } else {
                Ok(Some(resp))
            }
        },
    }
}

/// `n` zero bytes.
pub open spec fn zeros(n: nat) -> Seq<u8> {
    Seq::new(n, |i: int| 0u8)
}

/// `req` is the probe that node `node_id` sends at `t1` under number `seq`.
pub open spec fn is_probe(req: TimeRequest, node_id: u32, seq: u32, t1: u64) -> bool {
    &&& req.header == (Header { ver: WIRE_VERSION, kind: MSG_REQ, seq })
    &&& req.sender_id == node_id
    &&& req.t1_send_ns == t1
    &&& req.reserved@ == zeros(16)
    &&& req.signature@ == zeros(32)
}

/// `resp` is the answer of node `node_id` to `req`, received at `t2` and answered at `t3`.
pub open spec fn is_answer(
    resp: TimeResponse,
    req: TimeRequest,
    node_id: u32,
    t2: u64,
    t3: u64,
) -> bool {
    &&& resp.header == (Header { ver: WIRE_VERSION, kind: MSG_RESP, seq: req.header.seq })
    &&& resp.server_id == node_id
    &&& resp.t1_echo_ns == req.t1_send_ns
    &&& resp.t2_recv_ns == t2
    &&& resp.t3_send_ns == t3
    &&& resp.server_quality == SERVER_QUALITY
    &&& resp.reserved@ == zeros(16)
    &&& resp.signature@ == zeros(32)
}

/// The probe that node `node_id` sends at `t1` under number `seq`.
pub fn make_probe(node_id: u32, seq: u32, t1: u64) -> (req: TimeRequest)
    ensures
        is_probe(req, node_id, seq, t1),
{
    let req = TimeRequest {
        header: Header::new(MSG_REQ, seq),
        sender_id: node_id,
        t1_send_ns: t1,
        reserved: [0u8;16],
        signature: [0u8;32],
    };
    assert(req.reserved@ =~= zeros(16));
    assert(req.signature@ =~= zeros(32));
    req
}

/// The answer of node `node_id` to `req`, received at `t2` and answered at `t3`.
pub fn answer(req: &TimeRequest, node_id: u32, t2: u64, t3: u64) -> (resp: TimeResponse)
    ensures
        is_answer(resp, *req, node_id, t2, t3),
{
    let resp = TimeResponse {
        header: Header::new(MSG_RESP, req.header.seq),
        server_id: node_id,
        t1_echo_ns: req.t1_send_ns,
        t2_recv_ns: t2,
        t3_send_ns: t3,
        server_quality: SERVER_QUALITY,
        reserved: [0u8;16],
        signature: [0u8;32],
    };
    assert(resp.reserved@ =~= zeros(16));
    assert(resp.signature@ =~= zeros(32));
    resp
}

/// How long a request was held; zero where the clock went backwards meanwhile.
pub fn service_latency_ns(t2: u64, t3: u64) -> (latency: u64)
    ensures
        latency == (if t3 >= t2 {
            t3 - t2
        } else {
            0
        }),
{
    if t3 >= t2 {
        t3 - t2
    } else {
        0
    }
}

/// The record of a request's service latency.
pub fn latency_op(node_id: u32, now_ns: u64, latency: Binary64, window_ns: u64) -> (op: StoreOp)
    ensures
        op@ == (StoreOpView::TsAdd {
            key: peer_series(node_id, "service_latency"@),
            ts_ns: now_ns,
            val: latency,
            window_ns,
        }),
{
    StoreOp::TsAdd {
        key: peer_series_key(node_id, "service_latency"),
        ts_ns: now_ns,
        val: latency,
        window_ns,
    }
}

/// The record of a request that went unanswered.
pub fn timeout_op(peer_id: u32, now_ns: u64, window_ns: u64) -> (op: StoreOp)
    ensures
        op@ == (StoreOpView::TsAdd {
            key: peer_series(peer_id, "timeouts"@),
            ts_ns: now_ns,
            val: Binary64 { bits: ONE_BITS },
            window_ns,
        }),
{
    StoreOp::TsAdd {
        key: peer_series_key(peer_id, "timeouts"),
        ts_ns: now_ns,
        val: Binary64 { bits: ONE_BITS },
        window_ns,
    }
}

/// Numbers the probes of a node.
#[derive(Clone, Copy, Debug, PartialEq, Eq, Structural)]
pub struct ProbeCounter {
    pub next: u32,
}

impl ProbeCounter {
    /// A counter that starts at one.
    pub fn new() -> (counter: Self)
        ensures
            counter.next == 1,
    {
        ProbeCounter { next: 1 }
    }

    /// The number of the next probe; after the last number comes zero.
    pub fn take(&mut self) -> (seq: u32)
        ensures
            seq == old(self).next,
            final(self).next == (if old(self).next == u32::MAX {
                0
            } else {
                old(self).next + 1
            }),
    {
        let seq: u32 = self.next;
        self.next = seq.wrapping_add(1);
        seq
    }
}

impl Default for ProbeCounter {
    fn default() -> (counter: Self)
        ensures
            counter.next == 1,
    {
        ProbeCounter::new()
    }
}

/// The next probe of a node: its number and its encoding. The number is used up even where the
/// clock could not be read, `t1` is missing and no probe is sent.
pub fn next_probe(counter: &mut ProbeCounter, node_id: u32, t1: Option<u64>) -> (probe: Option<
    (u32, Vec<u8>),
>)
    ensures
        final(counter).next == (if old(counter).next == u32::MAX {
            0
        } else {
            old(counter).next + 1
        }),
        t1 is None ==> probe is None,
        t1 is Some ==> {
            &&& probe is Some
            &&& probe->Some_0.0 == old(counter).next
            &&& exists|req: TimeRequest|
                is_probe(req, node_id, old(counter).next, t1->Some_0) && probe->Some_0.1@
                    == #[trigger] request_bytes(req)
        },
{
    let seq: u32 = counter.take();
    match t1 {
        None => None,
        Some(t1_ns) => {
            let req = make_probe(node_id, seq, t1_ns);
            match encode_request(&req) {
                Ok(bytes) => {
                    assert(bytes@ == request_bytes(req));
                    Some((seq, bytes))
                },
                Err(_) => None,
            }
        },
    }
}

/// A peer to probe.
#[derive(Clone, Debug)]
pub struct ProbeTarget {
    pub peer_id: u32,
    /// Address and port, separated by a colon.
    pub addr: String,
}

/// The contents of a [`ProbeTarget`].
pub struct ProbeTargetView {
    pub peer_id: u32,
    pub addr: Seq<char>,
}

impl View for ProbeTarget {
    type V = ProbeTargetView;

    open spec fn view(&self) -> ProbeTargetView {
        ProbeTargetView { peer_id: self.peer_id, addr: self.addr@ }
    }
}

/// Whom a node probes, and how often.
#[derive(Clone, Debug)]
pub struct ProbePlan {
    /// A node without a PHC device only answers.
    pub enabled: bool,
    pub interval_ms: u64,
    pub burst: u32,
    pub targets: Vec<ProbeTarget>,
}

/// A peer as a target.
pub open spec fn target_of(peer: PeerEntry) -> ProbeTargetView {
    ProbeTargetView {
        peer_id: peer.id,
        addr: peer.ip@ + ":"@ + decimal(peer.port as nat),
    }
}

/// The peers other than the node itself.
pub open spec fn other_peers(peers: Seq<PeerEntry>, node_id: u32) -> Seq<PeerEntry> {
    peers.filter(|p: PeerEntry| p.id != node_id)
}

/// Every peer but the node itself, in the order of the configuration.
pub open spec fn targets_of(peers: Seq<PeerEntry>, node_id: u32) -> Seq<ProbeTargetView> {
    other_peers(peers, node_id).map_values(|p: PeerEntry| target_of(p))
}

fn probe_target(peer: &PeerEntry) -> (target: ProbeTarget)
    ensures
        target@ == target_of(*peer),
{
    let mut addr = String::new();
    addr.append(peer.ip.as_str());
    addr.append(":");
    push_decimal(&mut addr, peer.port as u64);
    assert(addr@ =~= peer.ip@ + ":"@ + decimal(peer.port as nat));
    ProbeTarget { peer_id: peer.id, addr }
}

/// One more peer changes the other peers by itself at most.
pub proof fn lemma_other_peers_step(peers: Seq<PeerEntry>, node_id: u32, i: int)
    requires
        0 <= i < peers.len(),
    ensures
        other_peers(peers.take(i + 1), node_id) == (if peers[i].id != node_id {
            other_peers(peers.take(i), node_id).push(peers[i])
        } else {
            other_peers(peers.take(i), node_id)
        }),
{
    reveal(Seq::filter);
    assert(peers.take(i + 1).drop_last() =~= peers.take(i));
}

/// The probe schedule of a node.
pub fn probe_plan(cfg: &Config) -> (plan: ProbePlan)
    ensures
        plan.enabled == cfg.phc_device is Some,
        plan.interval_ms == (if cfg.sampling.interval_ms == 0 {
            1
        } else {
            cfg.sampling.interval_ms
        }),
        plan.burst == (match cfg.sampling.burst {
            Some(0) => 1,
            Some(n) => n,
            None => 1u32,
        }),
        plan.targets@.map_values(|t: ProbeTarget| t@) == targets_of(cfg.peers@, cfg.node_id),
{
    let mut targets: Vec<ProbeTarget> = Vec::new();
    let mut i: usize = 0;
    assert(cfg.peers@.take(0).filter(|p: PeerEntry| p.id != cfg.node_id) =~= Seq::empty()) by {
        reveal(Seq::filter);
    }
    while i < cfg.peers.len()
        invariant
            i <= cfg.peers@.len(),
            targets@.map_values(|t: ProbeTarget| t@) == targets_of(
                cfg.peers@.take(i as int),
                cfg.node_id,
            ),
        decreases cfg.peers@.len() - i,
    {
        proof {
            lemma_other_peers_step(cfg.peers@, cfg.node_id, i as int);
        }
        let ghost before = targets@.map_values(|t: ProbeTarget| t@);
        if cfg.peers[i].id != cfg.node_id {
            let target = probe_target(&cfg.peers[i]);
            targets.push(target);
            assert(targets@.map_values(|t: ProbeTarget| t@) =~= before.push(target@));
            assert(targets_of(cfg.peers@.take(i + 1), cfg.node_id) =~= before.push(target@));
        }
        i += 1;
    }
    assert(cfg.peers@.take(i as int) =~= cfg.peers@);
    let interval_ms: u64 = if cfg.sampling.interval_ms == 0 { 1 } else { cfg.sampling.interval_ms };
    let burst: u32 = match cfg.sampling.burst {
        Some(0) => 1,
        Some(n) => n,
        None => 1,
    };
    ProbePlan { enabled: cfg.phc_device.is_some(), interval_ms, burst, targets }
}

/// The last measurement of a peer.
#[derive(Clone, Copy, Debug, PartialEq, Eq, Structural)]
pub struct PeerRuntime {
    pub last_delay_ns: Option<Binary64>,
    pub last_offset_ns: Option<Binary64>,
    pub last_jitter_ns: Option<Binary64>,
}

/// The last measurements by peer.
pub struct RuntimeTable {
    peers: HashMap<u32, PeerRuntime>,
}

impl View for RuntimeTable {
    type V = Map<u32, PeerRuntime>;

    closed spec fn view(&self) -> Map<u32, PeerRuntime> {
        self.peers@
    }
}

/// The last delay of a peer, if it was measured before.
pub open spec fn previous_delay(peers: Map<u32, PeerRuntime>, id: u32) -> Option<Binary64> {
    if peers.contains_key(id) {
        peers[id].last_delay_ns
    } else {
        None
    }
}

impl RuntimeTable {
    /// A table without measurements.
    pub fn new() -> (table: Self)
        ensures
            table@ == Map::<u32, PeerRuntime>::empty(),
    {
        RuntimeTable { peers: HashMap::new() }
    }

    /// The last delay of a peer, from which the jitter of its next measurement follows.
    pub fn last_delay(&self, id: u32) -> (delay: Option<Binary64>)
        ensures
            delay == previous_delay(self@, id),
    {
        broadcast use vstd::std_specs::hash::group_hash_axioms;

        match self.peers.get(&id) {
            Some(state) => state.last_delay_ns,
            None => None,
        }
    }

    /// Records a measurement and returns its jitter: `change`, the distance of `delay` from the
    /// last delay, or zero where there is no last delay.
    pub fn record(&mut self, id: u32, delay: Binary64, offset: Binary64, change: Binary64) -> (jitter:
        Binary64)
        ensures
            jitter == (if previous_delay(old(self)@, id) is Some {
                change
            } else {
                Binary64 { bits: 0 }
            }),
            final(self)@ == old(self)@.insert(
                id,
                PeerRuntime {
                    last_delay_ns: Some(delay),
                    last_offset_ns: Some(offset),
                    last_jitter_ns: Some(jitter),
                },
            ),
    {
        broadcast use vstd::std_specs::hash::group_hash_axioms;

        let jitter = match self.last_delay(id) {
            Some(_) => change,
            None => Binary64 { bits: 0 },
        };
        let state = PeerRuntime {
            last_delay_ns: Some(delay),
            last_offset_ns: Some(offset),
            last_jitter_ns: Some(jitter),
        };
        self.peers.insert(id, state);
        jitter
    }
}

/// One point of a peer's series.
pub open spec fn peer_point(
    id: u32,
    field: Seq<char>,
    ts_ns: u64,
    val: Binary64,
    window_ns: u64,
) -> StoreOpView {
    StoreOpView::TsAdd { key: peer_series(id, field), ts_ns, val, window_ns }
}

fn peer_point_op(id: u32, field: &str, ts_ns: u64, val: Binary64, window_ns: u64) -> (op: StoreOp)
    ensures
        op@ == peer_point(id, field@, ts_ns, val, window_ns),
{
    StoreOp::TsAdd { key: peer_series_key(id, field), ts_ns, val, window_ns }
}

/// The records of one measurement, taken at `ts_ns`.
pub fn measurement_ops(
    peer_id: u32,
    ts_ns: u64,
    offset: Binary64,
    delay: Binary64,
    jitter: Binary64,
    quality: Binary64,
    window_ns: u64,
) -> (ops: Vec<StoreOp>)
    ensures
        op_views(ops@) == seq![
            peer_point(peer_id, "offset"@, ts_ns, offset, window_ns),
            peer_point(peer_id, "delay"@, ts_ns, delay, window_ns),
            peer_point(peer_id, "jitter"@, ts_ns, jitter, window_ns),
            peer_point(peer_id, "quality"@, ts_ns, quality, window_ns),
        ],
{
    let mut ops: Vec<StoreOp> = Vec::new();
    ops.push(peer_point_op(peer_id, "offset", ts_ns, offset, window_ns));
    ops.push(peer_point_op(peer_id, "delay", ts_ns, delay, window_ns));
    ops.push(peer_point_op(peer_id, "jitter", ts_ns, jitter, window_ns));
    ops.push(peer_point_op(peer_id, "quality", ts_ns, quality, window_ns));
    assert(op_views(ops@) =~= seq![
        peer_point(peer_id, "offset"@, ts_ns, offset, window_ns),
        peer_point(peer_id, "delay"@, ts_ns, delay, window_ns),
        peer_point(peer_id, "jitter"@, ts_ns, jitter, window_ns),
        peer_point(peer_id, "quality"@, ts_ns, quality, window_ns),
    ]);
    ops
}

/// The wall clock in nanoseconds since the Unix epoch, for use where the precise clock cannot be
/// read; `None` where the count exceeds 64 bits.
pub fn monotonic_fallback_ns() -> (ns: Option<u64>)
    ensures
        exists|t: std::time::SystemTime|
            match ns {
                Some(n) => n == #[trigger] epoch_ns(t),
                None => epoch_ns(t) > u64::MAX,
            },
        exists|t: std::time::SystemTime|
            #[trigger] call_ensures(std::time::SystemTime::now, (), t) && match ns {
                Some(n) => n == epoch_ns(t),
                None => epoch_ns(t) > u64::MAX,
            },
{
    wall_clock_ns()
}

/// A complete exchange is measured: where node `server` answers the probe that waits for it under
/// its number, the client gets exactly the delay and the offset of the four timestamps.
pub proof fn law_answered_probe_is_measured(
    waiting: Map<u32, PendingRequest>,
    probe: TimeRequest,
    client: u32,
    server: u32,
    seq: u32,
    t1: u64,
    t2: u64,
    t3: u64,
    t4: u64,
    resp: TimeResponse,
    outcome: ResponseOutcome,
)
    requires
        is_probe(probe, client, seq, t1),
        waiting.contains_key(seq),
        waiting[seq].peer_id == server,
        waiting[seq].t1_ns == t1,
        is_answer(resp, probe, server, t2, t3),
        is_outcome(waiting, resp, t4, outcome),
    ensures
        outcome is Measured,
        outcome->Measured_0.server_id == server,
        outcome->Measured_0.quality == SERVER_QUALITY,
        outcome->Measured_0.delay_ns == delay_of(t1 as int, t2 as int, t3 as int, t4 as int),
        outcome->Measured_0.offset_ns == offset_of(t1 as int, t2 as int, t3 as int, t4 as int),
{
}

/// An exchange over the wire is measured: where the probe reaches node `server`, its answer comes
/// back and the probe is still waiting for it, the client gets exactly the delay and the offset of
/// the four timestamps, whatever bytes follow the packets in their datagrams.
pub proof fn law_exchange_over_the_wire_is_measured(
    waiting: Map<u32, PendingRequest>,
    probe: TimeRequest,
    client: u32,
    server: u32,
    seq: u32,
    times: (u64, u64, u64, u64),
    arrived: TimeRequest,
    resp: TimeResponse,
    returned: TimeResponse,
    trailing: (Seq<u8>, Seq<u8>),
    outcome: ResponseOutcome,
)
    requires
        is_probe(probe, client, seq, times.0),
        waiting.contains_key(seq),
        waiting[seq].peer_id == server,
        waiting[seq].t1_ns == times.0,
        decodes_to_request(request_bytes(probe) + trailing.0, arrived),
        is_answer(resp, arrived, server, times.1, times.2),
        decodes_to_response(response_bytes(resp) + trailing.1, returned),
        is_outcome(waiting, returned, times.3, outcome),
    ensures
        outcome is Measured,
        outcome->Measured_0.server_id == server,
        outcome->Measured_0.quality == SERVER_QUALITY,
        outcome->Measured_0.delay_ns == delay_of(
            times.0 as int,
            times.1 as int,
            times.2 as int,
            times.3 as int,
        ),
        outcome->Measured_0.offset_ns == offset_of(
            times.0 as int,
            times.1 as int,
            times.2 as int,
            times.3 as int,
        ),
{
    law_request_round_trip(probe, trailing.0, arrived);
    law_response_round_trip(resp, trailing.1, returned);
    law_answered_probe_is_measured(
        waiting,
        probe,
        client,
        server,
        seq,
        times.0,
        times.1,
        times.2,
        times.3,
        resp,
        outcome,
    );
}

/// A node recognises its own packets: an encoded probe is classified as a request and an encoded
/// answer as a response.
pub proof fn law_packets_are_recognised(
    probe: TimeRequest,
    client: u32,
    seq: u32,
    t1: u64,
    resp: TimeResponse,
    server: u32,
    t2: u64,
    t3: u64,
)
    requires
        is_probe(probe, client, seq, t1),
        is_answer(resp, probe, server, t2, t3),
    ensures
        class_of(request_bytes(probe)) == Datagram::Request,
        class_of(response_bytes(resp)) == Datagram::Response,
        request_bytes(probe).len() <= MAX_PACKET,
        response_bytes(resp).len() <= MAX_PACKET,
{
    law_request_starts_with_version_and_kind(probe);
    law_response_starts_with_version_and_kind(resp);
}

/// A node never probes itself, and probes every other configured peer.
pub proof fn law_targets_are_the_other_peers(peers: Seq<PeerEntry>, node_id: u32)
    ensures
        forall|i: int|
            0 <= i < targets_of(peers, node_id).len() ==> (
            #[trigger] targets_of(peers, node_id)[i]).peer_id != node_id,
        forall|k: int|
            0 <= k < peers.len() && (#[trigger] peers[k]).id != node_id ==> targets_of(
                peers,
                node_id,
            ).contains(target_of(peers[k])),
{
    broadcast use vstd::seq_lib::group_filter_ensures;

    let keep = |p: PeerEntry| p.id != node_id;
    let others = other_peers(peers, node_id);
    assert forall|i: int| 0 <= i < targets_of(peers, node_id).len() implies (
    #[trigger] targets_of(peers, node_id)[i]).peer_id != node_id by {
        assert(keep(others[i]));
    }
    assert forall|k: int| 0 <= k < peers.len() && (#[trigger] peers[k]).id
        != node_id implies targets_of(peers, node_id).contains(target_of(peers[k])) by {
        assert(keep(peers[k]));
        assert(others.contains(peers[k]));
        let i = choose|i: int| 0 <= i < others.len() && others[i] == peers[k];
        assert(targets_of(peers, node_id)[i] == target_of(peers[k]));
    }
}

/// The second byte of a datagram decides what it is; one without a second byte is nothing.
pub proof fn law_kind_byte_decides(datagram: Seq<u8>)
    ensures
        class_of(datagram) == Datagram::Request <==> datagram.len() >= 2 && datagram[1] == 1,
        class_of(datagram) == Datagram::Response <==> datagram.len() >= 2 && datagram[1] == 2,
        class_of(datagram) == Datagram::Ignored <==> datagram.len() < 2 || (datagram[1] != 1
            && datagram[1] != 2),
{
}

/// A probe carries its sender, its number and its sending time, and the answer echoes number and
/// time, names the server and carries its two times; everything that is reserved is zero.
pub proof fn law_packets_carry_their_fields(
    probe: TimeRequest,
    client: u32,
    seq: u32,
    resp: TimeResponse,
    server: u32,
    times: (u64, u64, u64),
)
    requires
        is_probe(probe, client, seq, times.0),
        is_answer(resp, probe, server, times.1, times.2),
    ensures
        probe.header == (Header { ver: 1, kind: 1, seq }),
        probe.sender_id == client,
        probe.t1_send_ns == times.0,
        resp.header == (Header { ver: 1, kind: 2, seq }),
        resp.server_id == server,
        resp.t1_echo_ns == times.0,
        resp.t2_recv_ns == times.1,
        resp.t3_send_ns == times.2,
        resp.server_quality == 100,
        forall|i: int|
            0 <= i < 16 ==> #[trigger] probe.reserved@[i] == 0 && resp.reserved@[i] == 0,
        forall|i: int|
            0 <= i < 32 ==> #[trigger] probe.signature@[i] == 0 && resp.signature@[i] == 0,
{
    assert forall|i: int| 0 <= i < 16 implies #[trigger] probe.reserved@[i] == 0
        && resp.reserved@[i] == 0 by {
        assert(zeros(16)[i] == 0);
    }
    assert forall|i: int| 0 <= i < 32 implies #[trigger] probe.signature@[i] == 0
        && resp.signature@[i] == 0 by {
        assert(zeros(32)[i] == 0);
    }
}

/// The targets are the other peers one by one and in their order, each under its identifier and
/// at its address and port.
pub proof fn law_targets_are_addressed(peers: Seq<PeerEntry>, node_id: u32, k: int)
    requires
        0 <= k < targets_of(peers, node_id).len(),
    ensures
        ({
            let others = peers.filter(|p: PeerEntry| p.id != node_id);
            let target = targets_of(peers, node_id)[k];
            &&& targets_of(peers, node_id).len() == others.len()
            &&& target.peer_id == others[k].id
            &&& target.addr == others[k].ip@ + ":"@ + decimal(others[k].port as nat)
        }),
{
}

/// A point of a peer's series holds its value at its time under the peer's own key.
pub proof fn law_points_are_kept_under_their_peer(
    id: u32,
    field: Seq<char>,
    ts_ns: u64,
    val: Binary64,
    window_ns: u64,
)
    ensures
        peer_point(id, field, ts_ns, val, window_ns) == (StoreOpView::TsAdd {
            key: peer_series(id, field),
            ts_ns,
            val,
            window_ns,
        }),
{
}

/// The last delay of a peer is the one of its last measurement, and that of no other peer.
pub proof fn law_delays_are_remembered_by_peer(
    peers: Map<u32, PeerRuntime>,
    id: u32,
    state: PeerRuntime,
    other: u32,
)
    requires
        other != id,
    ensures
        previous_delay(Map::empty(), id) is None,
        previous_delay(peers.insert(id, state), id) == state.last_delay_ns,
        previous_delay(peers.insert(id, state), other) == previous_delay(peers, other),
{
}

} // verus!
