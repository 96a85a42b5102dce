//! Requests that wait for their response.
use std::collections::HashMap;

use vstd::prelude::*;

use crate::net::proto::TimeResponse;
use crate::time::calc::{compute_offset_delay, delay_of, offset_of};

verus! {

/// How long a request waits for its response.
pub const RESPONSE_TIMEOUT_MS: u64 = 400;

/// Nanoseconds in one millisecond.
pub const NANOS_PER_MILLI: u64 = 1_000_000;

/// A request that was sent.
#[derive(Clone, Copy, Debug, PartialEq, Eq, Structural)]
pub struct PendingRequest {
    /// The peer that is to answer.
    pub peer_id: u32,
    /// When it was sent, by the clock that is being synchronised.
    pub t1_ns: u64,
    /// When it was sent, by the monotonic clock.
    pub sent_at_ns: u128,
}

/// What one valid exchange with a peer yields.
#[derive(Clone, Copy, Debug, PartialEq, Eq, Structural)]
pub struct Measurement {
    pub server_id: u32,
    pub delay_ns: i128,
    pub offset_ns: i128,
    pub quality: u32,
}

/// What becomes of a response.
#[derive(Clone, Copy, Debug, PartialEq, Eq, Structural)]
pub enum ResponseOutcome {
    /// No request with this sequence number is waiting.
    Orphan,
    /// The request went to another peer, `expected`.
    ServerMismatch { expected: u32 },
    /// The exchange is complete.
    Measured(Measurement),
}

/// The waiting requests by their sequence numbers.
pub struct PendingTable {
    requests: HashMap<u32, PendingRequest>,
}

impl View for PendingTable {
    type V = Map<u32, PendingRequest>;

    closed spec fn view(&self) -> Map<u32, PendingRequest> {
        self.requests@
    }
}

/// Delay, offset and quality of the exchange that `resp`, received at `t4`, completes.
pub open spec fn measurement_of(req: PendingRequest, resp: TimeResponse, t4: u64, m: Measurement) -> bool {
    &&& m.server_id == resp.server_id
    &&& m.quality == resp.server_quality
    &&& m.delay_ns == delay_of(
        req.t1_ns as int,
        resp.t2_recv_ns as int,
        resp.t3_send_ns as int,
        t4 as int,
    )
    &&& m.offset_ns == offset_of(
        req.t1_ns as int,
        resp.t2_recv_ns as int,
        resp.t3_send_ns as int,
        t4 as int,
    )
}

/// `outcome` is what becomes of `resp`, received at `t4`, while `waiting` are waiting.
pub open spec fn is_outcome(
    waiting: Map<u32, PendingRequest>,
    resp: TimeResponse,
    t4: u64,
    outcome: ResponseOutcome,
) -> bool {
    let seq = resp.header.seq;
    if !waiting.contains_key(seq) {
        outcome == ResponseOutcome::Orphan
    } else if waiting[seq].peer_id != resp.server_id {
        outcome == (ResponseOutcome::ServerMismatch { expected: waiting[seq].peer_id })
    } else {
        &&& outcome is Measured
        &&& measurement_of(waiting[seq], resp, t4, outcome->Measured_0)
    }
}

/// `req` has waited longer than `timeout_ms` at `now_ns`.
pub open spec fn is_expired(req: PendingRequest, now_ns: u128, timeout_ms: u64) -> bool {
    now_ns - req.sent_at_ns > timeout_ms * NANOS_PER_MILLI
}

/// The sequence numbers of the requests that are still waiting at `now_ns`.
pub open spec fn still_waiting(
    waiting: Map<u32, PendingRequest>,
    now_ns: u128,
    timeout_ms: u64,
) -> Set<u32> {
    Set::new(|seq: u32| waiting.contains_key(seq) && !is_expired(waiting[seq], now_ns, timeout_ms))
}

/// `expired` lists every expired request once, in no particular order, with its sequence number.
pub open spec fn lists_expired(
    waiting: Map<u32, PendingRequest>,
    now_ns: u128,
    timeout_ms: u64,
    expired: Seq<(u32, PendingRequest)>,
) -> bool {
    &&& forall|i: int|
        0 <= i < expired.len() ==> {
            &&& waiting.contains_key((#[trigger] expired[i]).0)
            &&& waiting[expired[i].0] == expired[i].1
            &&& is_expired(expired[i].1, now_ns, timeout_ms)
        }
    &&& forall|i: int, j: int|
        0 <= i < j < expired.len() ==> (#[trigger] expired[i]).0 != (#[trigger] expired[j]).0
    &&& forall|seq: u32| #[trigger]
        waiting.contains_key(seq) && is_expired(waiting[seq], now_ns, timeout_ms)
            ==> expired.contains((seq, waiting[seq]))
}

impl PendingTable {
    /// A table without requests.
    pub fn new() -> (table: Self)
        ensures
            table@ == Map::<u32, PendingRequest>::empty(),
    {
        PendingTable { requests: HashMap::new() }
    }

    /// Records a request that was sent, in place of an older one with the same number.
    pub fn insert(&mut self, seq: u32, req: PendingRequest)
        ensures
            final(self)@ == old(self)@.insert(seq, req),
    {
        broadcast use vstd::std_specs::hash::group_hash_axioms;

        self.requests.insert(seq, req);
    }

    /// Takes the request with this number out of the table.
    pub fn take(&mut self, seq: u32) -> (req: Option<PendingRequest>)
        ensures
            final(self)@ == old(self)@.remove(seq),
            req == (if old(self)@.contains_key(seq) {
                Some(old(self)@[seq])
            } else {
                None
            }),
    {
        broadcast use vstd::std_specs::hash::group_hash_axioms;

        self.requests.remove(&seq)
    }

    /// Matches a response of the current version, received at `t4`, with its request. The request
    /// is taken out of the table whether or not the response came from the right peer.
    pub fn accept_response(&mut self, resp: &TimeResponse, t4: u64) -> (outcome: ResponseOutcome)
        ensures
            is_outcome(old(self)@, *resp, t4, outcome),
            final(self)@ == old(self)@.remove(resp.header.seq),
    {
        match self.take(resp.header.seq) {
            None => ResponseOutcome::Orphan,
            Some(req) => {
                if req.peer_id != resp.server_id {
                    return ResponseOutcome::ServerMismatch { expected: req.peer_id };
                }
                let calc = compute_offset_delay(
                    req.t1_ns as i128,
                    resp.t2_recv_ns as i128,
                    resp.t3_send_ns as i128,
                    t4 as i128,
                );
                ResponseOutcome::Measured(
                    Measurement {
                        server_id: resp.server_id,
                        delay_ns: calc.delay_ns,
                        offset_ns: calc.offset_ns,
                        quality: resp.server_quality,
                    },
                )
            },
        }
    }

    fn sequence_numbers(&self) -> (seqs: Vec<u32>)
        ensures
            forall|i: int, j: int|
                0 <= i < j < seqs@.len() ==> #[trigger] seqs@[i] != #[trigger] seqs@[j],
            forall|seq: u32| #[trigger] seqs@.contains(seq) <==> self@.contains_key(seq),
    {
        broadcast use vstd::std_specs::hash::group_hash_axioms;

        let mut seqs: Vec<u32> = Vec::new();
        let keys = self.requests.keys();
        let ghost all = vstd::std_specs::iter::IteratorSpec::remaining(&keys).unref();
        for key in it: keys
            invariant
                it.seq().unref() == all,
                seqs@ == all.take(it.index()),
                all.to_set() == self.requests@.dom(),
                it.seq().no_duplicates(),
        {
            seqs.push(*key);
            assert(seqs@ =~= all.take(it.index() + 1));
        }
        proof {
            assert(seqs@ =~= all);
            assert forall|seq: u32| #[trigger] seqs@.contains(seq) <==> self@.contains_key(seq) by {
                assert(seqs@.to_set().contains(seq) <==> self.requests@.dom().contains(seq));
            }
        }
        seqs
    }

    /// Takes every request out of the table that has waited longer than `timeout_ms`.
    pub fn expire(&mut self, now_ns: u128, timeout_ms: u64) -> (expired: Vec<(u32, PendingRequest)>)
        ensures
            final(self)@ == old(self)@.restrict(still_waiting(old(self)@, now_ns, timeout_ms)),
            lists_expired(old(self)@, now_ns, timeout_ms, expired@),
    {
        let seqs: Vec<u32> = self.sequence_numbers();
        let ghost waiting = self@;
        assert(timeout_ms * NANOS_PER_MILLI <= u64::MAX * NANOS_PER_MILLI) by (nonlinear_arith)
            requires
                timeout_ms <= u64::MAX,
        ;
        let timeout_ns: u128 = timeout_ms as u128 * NANOS_PER_MILLI as u128;
        let mut expired: Vec<(u32, PendingRequest)> = Vec::new();
        let mut i: usize = 0;
        assert forall|k: int| 0 <= k < seqs@.len() implies waiting.contains_key(
            #[trigger] seqs@[k],
        ) by {
            assert(seqs@.contains(seqs@[k]));
        }
        while i < seqs.len()
            invariant
                i <= seqs@.len(),
                timeout_ns == timeout_ms * NANOS_PER_MILLI,
                forall|a: int, b: int|
                    0 <= a < b < seqs@.len() ==> #[trigger] seqs@[a] != #[trigger] seqs@[b],
                forall|k: int| 0 <= k < seqs@.len() ==> waiting.contains_key(#[trigger] seqs@[k]),
                forall|seq: u32| #[trigger]
                    self@.contains_key(seq) ==> waiting.contains_key(seq) && self@[seq]
                        == waiting[seq],
                forall|k: int|
                    i <= k < seqs@.len() ==> self@.contains_key(#[trigger] seqs@[k]),
                forall|k: int|
                    0 <= k < i ==> (self@.contains_key(#[trigger] seqs@[k]) <==> !is_expired(
                        waiting[seqs@[k]],
                        now_ns,
                        timeout_ms,
                    )),
                forall|n: int|
                    0 <= n < expired@.len() ==> {
                        &&& waiting.contains_key((#[trigger] expired@[n]).0)
                        &&& waiting[expired@[n].0] == expired@[n].1
                        &&& is_expired(expired@[n].1, now_ns, timeout_ms)
                        &&& !self@.contains_key(expired@[n].0)
                    },
                forall|m: int, n: int|
                    0 <= m < n < expired@.len() ==> (#[trigger] expired@[m]).0 != (
                    #[trigger] expired@[n]).0,
                forall|k: int|
                    0 <= k < i && is_expired(waiting[#[trigger] seqs@[k]], now_ns, timeout_ms)
                        ==> expired@.contains((seqs@[k], waiting[seqs@[k]])),
            decreases seqs@.len() - i,
        {
            let seq: u32 = seqs[i];
            let ghost listed = expired@;
            assert(self@.contains_key(seqs@[i as int]));
            if let Some(req) = self.take(seq) {
                if now_ns > req.sent_at_ns && now_ns - req.sent_at_ns > timeout_ns {
                    expired.push((seq, req));
                    assert forall|k: int|
                        0 <= k < i + 1 && is_expired(
                            waiting[#[trigger] seqs@[k]],
                            now_ns,
                            timeout_ms,
                        ) implies expired@.contains((seqs@[k], waiting[seqs@[k]])) by {
                        if k == i {
                            assert(expired@[expired@.len() - 1] == (seq, req));
                        } else {
                            let at = choose|at: int|
                                0 <= at < listed.len() && listed[at] == (
                                    seqs@[k],
                                    waiting[seqs@[k]],
                                );
                            assert(expired@[at] == listed[at]);
                        }
                    }
                } else {
                    self.insert(seq, req);
                }
            }
            i += 1;
        }
        proof {
            assert forall|seq: u32| #[trigger]
                waiting.contains_key(seq) && is_expired(
                    waiting[seq],
                    now_ns,
                    timeout_ms,
                ) implies expired@.contains((seq, waiting[seq])) by {
                assert(seqs@.contains(seq));
                let k = choose|k: int| 0 <= k < seqs@.len() && seqs@[k] == seq;
                assert(seqs@[k] == seq);
            }
            let kept = waiting.restrict(still_waiting(waiting, now_ns, timeout_ms));
            assert forall|seq: u32| self@.contains_key(seq) == kept.contains_key(seq) by {
                if waiting.contains_key(seq) {
                    assert(seqs@.contains(seq));
                    let k = choose|k: int| 0 <= k < seqs@.len() && seqs@[k] == seq;
                    assert(seqs@[k] == seq);
                }
            }
            assert(self@ =~= kept);
        }
        expired
    }
}

/// A request is answered at most once: once a response was accepted or refused, any further
/// response with its sequence number is an orphan.
pub proof fn law_second_response_is_orphan(
    waiting: Map<u32, PendingRequest>,
    first: TimeResponse,
    second: TimeResponse,
    t4: u64,
    outcome: ResponseOutcome,
)
    requires
        second.header.seq == first.header.seq,
        is_outcome(waiting.remove(first.header.seq), second, t4, outcome),
    ensures
        outcome == ResponseOutcome::Orphan,
{
}

/// Only the peer that was asked can produce a measurement.
pub proof fn law_only_the_asked_peer_is_measured(
    waiting: Map<u32, PendingRequest>,
    resp: TimeResponse,
    t4: u64,
    outcome: ResponseOutcome,
)
    requires
        is_outcome(waiting, resp, t4, outcome),
        outcome is Measured,
    ensures
        waiting.contains_key(resp.header.seq),
        outcome->Measured_0.server_id == waiting[resp.header.seq].peer_id,
{
}

/// A response leaves the requests with other sequence numbers as they were.
pub proof fn law_other_requests_keep_waiting(
    waiting: Map<u32, PendingRequest>,
    resp: TimeResponse,
    seq: u32,
)
    requires
        seq != resp.header.seq,
    ensures
        waiting.remove(resp.header.seq).contains_key(seq) == waiting.contains_key(seq),
        waiting.contains_key(seq) ==> waiting.remove(resp.header.seq)[seq] == waiting[seq],
{
}

/// Expiry loses no request and duplicates none: each one either keeps waiting or is listed as
/// expired, never both.
pub proof fn law_expiry_partitions_requests(
    waiting: Map<u32, PendingRequest>,
    now_ns: u128,
    timeout_ms: u64,
    expired: Seq<(u32, PendingRequest)>,
    seq: u32,
)
    requires
        lists_expired(waiting, now_ns, timeout_ms, expired),
        waiting.contains_key(seq),
    ensures
        ({
            let kept = waiting.restrict(still_waiting(waiting, now_ns, timeout_ms));
            &&& kept.contains_key(seq) <==> !expired.contains((seq, waiting[seq]))
            &&& kept.contains_key(seq) ==> kept[seq] == waiting[seq]
        }),
{
}

/// A response is refused where nothing waits for it, and where what waits went to another peer,
/// which is then named; otherwise it is measured.
pub proof fn law_responses_are_matched_by_number_and_peer(
    waiting: Map<u32, PendingRequest>,
    resp: TimeResponse,
    t4: u64,
    outcome: ResponseOutcome,
)
    requires
        is_outcome(waiting, resp, t4, outcome),
    ensures
        outcome is Orphan <==> !waiting.contains_key(resp.header.seq),
        outcome is ServerMismatch <==> waiting.contains_key(resp.header.seq)
            && waiting[resp.header.seq].peer_id != resp.server_id,
        outcome matches ResponseOutcome::ServerMismatch { expected } ==> expected
            == waiting[resp.header.seq].peer_id,
        outcome is Measured <==> waiting.contains_key(resp.header.seq)
            && waiting[resp.header.seq].peer_id == resp.server_id,
{
}

/// A measurement names its server, repeats the quality that the server reports, and holds the delay
/// and the offset of the request's own sending time, the server's two times and the time of
/// arrival.
pub proof fn law_measurements_hold_the_exchange(
    waiting: Map<u32, PendingRequest>,
    resp: TimeResponse,
    t4: u64,
    m: Measurement,
)
    requires
        is_outcome(waiting, resp, t4, ResponseOutcome::Measured(m)),
    ensures
        ({
            let t1 = waiting[resp.header.seq].t1_ns;
            let both = (resp.t2_recv_ns - t1) + (resp.t3_send_ns - t4);
            &&& m.server_id == resp.server_id
            &&& m.quality == resp.server_quality
            &&& m.delay_ns == (t4 - t1) - (resp.t3_send_ns - resp.t2_recv_ns)
            &&& both >= 0 ==> both - 1 <= 2 * m.offset_ns <= both
            &&& both <= 0 ==> both <= 2 * m.offset_ns <= both + 1
        }),
{
}

/// A request stops waiting exactly when more milliseconds than the timeout have passed since it was
/// sent, and is then listed as it was.
pub proof fn law_requests_expire_after_the_timeout(
    waiting: Map<u32, PendingRequest>,
    now_ns: u128,
    timeout_ms: u64,
    expired: Seq<(u32, PendingRequest)>,
    seq: u32,
)
    requires
        lists_expired(waiting, now_ns, timeout_ms, expired),
        waiting.contains_key(seq),
    ensures
        still_waiting(waiting, now_ns, timeout_ms).contains(seq) <==> now_ns
            <= waiting[seq].sent_at_ns + timeout_ms * 1_000_000,
        expired.contains((seq, waiting[seq])) <==> now_ns > waiting[seq].sent_at_ns + timeout_ms
            * 1_000_000,
{
}

/// Nothing expires that was not waiting, and nothing twice.
pub proof fn law_only_waiting_requests_expire(
    waiting: Map<u32, PendingRequest>,
    now_ns: u128,
    timeout_ms: u64,
    expired: Seq<(u32, PendingRequest)>,
    i: int,
    j: int,
)
    requires
        lists_expired(waiting, now_ns, timeout_ms, expired),
        0 <= i < j < expired.len(),
    ensures
        waiting.contains_key(expired[i].0),
        waiting[expired[i].0] == expired[i].1,
        expired[i].0 != expired[j].0,
{
}

} // verus!
