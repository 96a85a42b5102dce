//! Polling of NTP servers: its schedule, its memory and its records.
use vstd::prelude::*;

use crate::binary64::Binary64;
use crate::config::NtpSource;
use crate::net::fusion::weight_or;
use crate::net::ntp::NTP_DEFAULT_WEIGHT_BITS;
use crate::store::keys::{
    field_views, ntp_hash, ntp_hash_key, ntp_series, ntp_series_key, op_views, StoreOp, StoreOpView,
};

verus! {

/// Time between two polls unless configured.
pub const DEFAULT_POLL_MS: u64 = 2_000;

/// Least time between two polls.
pub const MIN_POLL_MS: u64 = 250;

/// How long a poll waits for its response unless configured.
pub const DEFAULT_TIMEOUT_MS: u64 = 1_500;

/// The port of NTP servers unless configured.
pub const NTP_PORT: u16 = 123;

/// How a server is polled.
#[derive(Clone, Copy, Debug, PartialEq, Eq, Structural)]
pub struct PollerSettings {
    pub poll_ms: u64,
    pub timeout_ms: u64,
    pub port: u16,
    pub weight: Binary64,
}

/// See [`poller_settings`].
pub open spec fn settings_of(source: NtpSource) -> PollerSettings {
    let wanted = match source.poll_interval_ms {
        Some(ms) => ms,
        None => DEFAULT_POLL_MS,
    };
    PollerSettings {
        poll_ms: if wanted < MIN_POLL_MS {
            MIN_POLL_MS
        } else {
            wanted
        },
        timeout_ms: match source.timeout_ms {
            Some(ms) => ms,
            None => DEFAULT_TIMEOUT_MS,
        },
        port: match source.port {
            Some(port) => port,
            None => NTP_PORT,
        },
        weight: weight_or(source.weight, NTP_DEFAULT_WEIGHT_BITS),
    }
}

/// How a server is polled: as configured, with defaults, and never too often.
pub fn poller_settings(source: &NtpSource) -> (settings: PollerSettings)
    ensures
        settings == settings_of(*source),
{
    let wanted: u64 = source.poll_interval_ms.unwrap_or(DEFAULT_POLL_MS);
    PollerSettings {
        poll_ms: if wanted < MIN_POLL_MS { MIN_POLL_MS } else { wanted },
        timeout_ms: source.timeout_ms.unwrap_or(DEFAULT_TIMEOUT_MS),
        port: source.port.unwrap_or(NTP_PORT),
        weight: source.weight.unwrap_or(Binary64 { bits: NTP_DEFAULT_WEIGHT_BITS }),
    }
}

/// What a poller remembers of its last successful poll.
#[derive(Clone, Copy, Debug, PartialEq, Eq, Structural)]
pub struct PollState {
    pub last_delay: Option<Binary64>,
    pub last_offset: Option<Binary64>,
    pub last_ts: Option<u64>,
}

/// What the drift since the last poll is computed from.
#[derive(Clone, Copy, Debug, PartialEq, Eq, Structural)]
pub struct DriftBase {
    pub prev_offset: Binary64,
    /// Time since the last poll, always positive.
    pub elapsed_ns: u64,
}

/// When a poll was answered, and its delay and offset.
#[derive(Clone, Copy, Debug, PartialEq, Eq, Structural)]
pub struct PolledPoint {
    pub ts_ns: u64,
    pub delay: Binary64,
    pub offset: Binary64,
}

impl PolledPoint {
    /// What a poller remembers of this poll.
    pub open spec fn remembered(self) -> PollState {
        PollState {
            last_delay: Some(self.delay),
            last_offset: Some(self.offset),
            last_ts: Some(self.ts_ns),
        }
    }
}

impl PollState {
    /// Nothing was polled yet.
    pub fn new() -> (state: Self)
        ensures
            state == (PollState { last_delay: None, last_offset: None, last_ts: None }),
    {
        PollState { last_delay: None, last_offset: None, last_ts: None }
    }

    /// See [`PollState::drift_base`].
    pub open spec fn drift_base_spec(self, ts_ns: u64) -> Option<DriftBase> {
        match (self.last_offset, self.last_ts) {
            (Some(prev_offset), Some(prev_ts)) => if ts_ns > prev_ts {
                Some(DriftBase { prev_offset, elapsed_ns: (ts_ns - prev_ts) as u64 })
            } else {
                None
            },
            _ => None,
        }
    }

    /// What the drift of a poll at `ts_ns` is computed from; `None` where there is no earlier
    /// poll to compare with.
    pub fn drift_base(&self, ts_ns: u64) -> (base: Option<DriftBase>)
        ensures
            base == self.drift_base_spec(ts_ns),
    {
        match (self.last_offset, self.last_ts) {
            (Some(prev_offset), Some(prev_ts)) => {
                if ts_ns > prev_ts {
                    Some(DriftBase { prev_offset, elapsed_ns: ts_ns - prev_ts })
                } else {
                    None
                }
            },
            _ => None,
        }
    }

    /// The jitter and the drift of a poll at `ts_ns`: `change` and `slope`, each replaced by zero
    /// where there is no earlier poll to compare with.
    pub open spec fn derived_spec(self, ts_ns: u64, change: Binary64, slope: Binary64) -> (
        Binary64,
        Binary64,
    ) {
        let zero = Binary64 { bits: 0 };
        (
            if self.last_delay is Some {
                change
            } else {
                zero
            },
            if self.drift_base_spec(ts_ns) is Some {
                slope
            } else {
                zero
            },
        )
    }

    /// Remembers a poll and returns its jitter and its drift: `change`, the distance of `delay`
    /// from the last delay, and `slope`, the change of the offset over the elapsed time, each
    /// replaced by zero where there is no earlier poll to compare with.
    pub fn record(
        &mut self,
        ts_ns: u64,
        delay: Binary64,
        offset: Binary64,
        change: Binary64,
        slope: Binary64,
    ) -> (derived: (Binary64, Binary64))
        ensures
            derived == old(self).derived_spec(ts_ns, change, slope),
            *final(self) == (PolledPoint { ts_ns, delay, offset }).remembered(),
    {
        let zero = Binary64 { bits: 0 };
        let jitter = if self.last_delay.is_some() { change } else { zero };
        let drift = if self.drift_base(ts_ns).is_some() { slope } else { zero };
        self.last_delay = Some(delay);
        self.last_offset = Some(offset);
        self.last_ts = Some(ts_ns);
        (jitter, drift)
    }
}

impl Default for PollState {
    fn default() -> (state: Self)
        ensures
            state == (PollState { last_delay: None, last_offset: None, last_ts: None }),
    {
        PollState::new()
    }
}

/// The values of one poll.
#[derive(Clone, Copy, Debug, PartialEq, Eq, Structural)]
pub struct PollValues {
    pub offset: Binary64,
    pub delay: Binary64,
    pub jitter: Binary64,
    pub stratum: Binary64,
    pub drift_ppm: Binary64,
}

/// The derived values of one poll that its summary adds.
#[derive(Clone, Copy, Debug, PartialEq, Eq, Structural)]
pub struct PollExtras {
    pub score: Binary64,
    pub weight: Binary64,
    pub remote_time_s: Binary64,
    pub system_delta_s: Binary64,
    pub offset_vs_mean: Option<Binary64>,
    pub ping_ms: Option<Binary64>,
}

/// A successful poll.
#[derive(Clone, Copy, Debug, PartialEq, Eq, Structural)]
pub struct PolledSample {
    pub point: PolledPoint,
    pub stratum: Binary64,
    /// The distance of its delay from the last one.
    pub change: Binary64,
    /// The change of the offset since the last poll, over the elapsed time.
    pub slope: Binary64,
}

impl PolledSample {
    /// The values of this poll, where `state` is remembered of the one before.
    pub open spec fn values(self, state: PollState) -> PollValues {
        let derived = state.derived_spec(self.point.ts_ns, self.change, self.slope);
        PollValues {
            offset: self.point.offset,
            delay: self.point.delay,
            jitter: derived.0,
            stratum: self.stratum,
            drift_ppm: derived.1,
        }
    }
}

impl PollState {
    /// Takes in the outcome of a round of polling, `None` where the lookup or the poll failed:
    /// the values of the poll and their records. A failed round yields neither, and is not
    /// remembered.
    pub fn after_poll(&mut self, id: u32, outcome: Option<PolledSample>, window_ns: u64) -> (taken: (
        Option<PollValues>,
        Vec<StoreOp>,
    ))
        ensures
            *final(self) == state_after(*old(self), polled(outcome)),
            match outcome {
                None => taken.0 is None && op_views(taken.1@) == Seq::<StoreOpView>::empty(),
                Some(sample) => {
                    &&& taken.0 == Some(sample.values(*old(self)))
                    &&& op_views(taken.1@) == poll_points(
                        id,
                        sample.point.ts_ns,
                        sample.values(*old(self)),
                        window_ns,
                    )
                },
            },
    {
        match outcome {
            None => {
                let ops: Vec<StoreOp> = Vec::new();
                assert(op_views(ops@) =~= Seq::<StoreOpView>::empty());
                (None, ops)
            },
            Some(sample) => {
                let point = sample.point;
                let derived = self.record(
                    point.ts_ns,
                    point.delay,
                    point.offset,
                    sample.change,
                    sample.slope,
                );
                let values = PollValues {
                    offset: point.offset,
                    delay: point.delay,
                    jitter: derived.0,
                    stratum: sample.stratum,
                    drift_ppm: derived.1,
                };
                let ops: Vec<StoreOp> = poll_ops(id, point.ts_ns, &values, window_ns);
                (Some(values), ops)
            },
        }
    }
}

/// What is remembered of the outcome of a round of polling.
pub open spec fn polled(outcome: Option<PolledSample>) -> Option<PolledPoint> {
    match outcome {
        Some(sample) => Some(sample.point),
        None => None,
    }
}

/// What a poller remembers after one more round of polling, `None` where that failed.
pub open spec fn state_after(state: PollState, outcome: Option<PolledPoint>) -> PollState {
    match outcome {
        Some(point) => point.remembered(),
        None => state,
    }
}

/// What a poller remembers after these rounds of polling.
pub open spec fn state_after_all(state: PollState, outcomes: Seq<Option<PolledPoint>>) -> PollState
    decreases outcomes.len(),
{
    if outcomes.len() == 0 {
        state
    } else {
        state_after(state_after_all(state, outcomes.drop_last()), outcomes.last())
    }
}

/// One point of an NTP server's series.
pub open spec fn ntp_point(
    id: u32,
    field: Seq<char>,
    ts_ns: u64,
    val: Binary64,
    window_ns: u64,
) -> StoreOpView {
    StoreOpView::TsAdd { key: ntp_series(id, field), ts_ns, val, window_ns }
}

/// The record of one value of a server.
pub fn ntp_point_op(id: u32, field: &str, ts_ns: u64, val: Binary64, window_ns: u64) -> (op: StoreOp)
    ensures
        op@ == ntp_point(id, field@, ts_ns, val, window_ns),
{
    StoreOp::TsAdd { key: ntp_series_key(id, field), ts_ns, val, window_ns }
}

/// The records of a poll's measurement.
pub open spec fn poll_points(id: u32, ts_ns: u64, v: PollValues, window_ns: u64) -> Seq<
    StoreOpView,
> {
    seq![
        ntp_point(id, "offset"@, ts_ns, v.offset, window_ns),
        ntp_point(id, "delay"@, ts_ns, v.delay, window_ns),
        ntp_point(id, "jitter"@, ts_ns, v.jitter, window_ns),
        ntp_point(id, "quality"@, ts_ns, v.stratum, window_ns),
        ntp_point(id, "drift_ppm"@, ts_ns, v.drift_ppm, window_ns),
    ]
}

/// The records of a poll's measurement.
pub fn poll_ops(id: u32, ts_ns: u64, v: &PollValues, window_ns: u64) -> (ops: Vec<StoreOp>)
    ensures
        op_views(ops@) == poll_points(id, ts_ns, *v, window_ns),
{
    let mut ops: Vec<StoreOp> = Vec::new();
    ops.push(ntp_point_op(id, "offset", ts_ns, v.offset, window_ns));
    ops.push(ntp_point_op(id, "delay", ts_ns, v.delay, window_ns));
    ops.push(ntp_point_op(id, "jitter", ts_ns, v.jitter, window_ns));
    ops.push(ntp_point_op(id, "quality", ts_ns, v.stratum, window_ns));
    ops.push(ntp_point_op(id, "drift_ppm", ts_ns, v.drift_ppm, window_ns));
    assert(op_views(ops@) =~= poll_points(id, ts_ns, *v, window_ns));
    ops
}

/// The records of the server's time and of its distance from the system clock, in seconds.
pub fn remote_clock_ops(
    id: u32,
    ts_ns: u64,
    remote_time_s: Binary64,
    system_delta_s: Binary64,
    window_ns: u64,
) -> (ops: Vec<StoreOp>)
    ensures
        op_views(ops@) == seq![
            ntp_point(id, "remote_time"@, ts_ns, remote_time_s, window_ns),
            ntp_point(id, "system_delta"@, ts_ns, system_delta_s, window_ns),
        ],
{
    let mut ops: Vec<StoreOp> = Vec::new();
    ops.push(ntp_point_op(id, "remote_time", ts_ns, remote_time_s, window_ns));
    ops.push(ntp_point_op(id, "system_delta", ts_ns, system_delta_s, window_ns));
    assert(op_views(ops@) =~= seq![
        ntp_point(id, "remote_time"@, ts_ns, remote_time_s, window_ns),
        ntp_point(id, "system_delta"@, ts_ns, system_delta_s, window_ns),
    ]);
    ops
}

/// The record of the distance from the mean offset of the other servers.
pub fn mean_distance_op(id: u32, ts_ns: u64, distance: Binary64, window_ns: u64) -> (op: StoreOp)
    ensures
        op@ == ntp_point(id, "offset_vs_mean"@, ts_ns, distance, window_ns),
{
    ntp_point_op(id, "offset_vs_mean", ts_ns, distance, window_ns)
}

/// The record of a ping.
pub fn ping_op(id: u32, ts_ns: u64, ping_ms: Binary64, window_ns: u64) -> (op: StoreOp)
    ensures
        op@ == ntp_point(id, "ping_ms"@, ts_ns, ping_ms, window_ns),
{
    ntp_point_op(id, "ping_ms", ts_ns, ping_ms, window_ns)
}

/// A field that is only there with a value.
pub open spec fn optional_field(name: Seq<char>, value: Option<Binary64>) -> Seq<
    (Seq<char>, Binary64),
> {
    match value {
        Some(v) => seq![(name, v)],
        None => Seq::empty(),
    }
}

/// The fields of a server's summary.
pub open spec fn summary_fields(v: PollValues, x: PollExtras) -> Seq<(Seq<char>, Binary64)> {
    seq![
        ("offset_ns"@, v.offset),
        ("delay_ns"@, v.delay),
        ("jitter_ns"@, v.jitter),
        ("score"@, x.score),
        ("weight"@, x.weight),
        ("stratum"@, v.stratum),
        ("drift_ppm"@, v.drift_ppm),
        ("remote_time_s"@, x.remote_time_s),
        ("system_delta_s"@, x.system_delta_s),
    ] + optional_field("offset_vs_mean_ns"@, x.offset_vs_mean) + optional_field(
        "ping_ms"@,
        x.ping_ms,
    )
}

/// The summary of a server after a poll.
pub fn poll_summary_op(id: u32, v: &PollValues, x: &PollExtras) -> (op: StoreOp)
    ensures
        op@ == (StoreOpView::HmSet {
            key: ntp_hash(id, "summary"@),
            fields: summary_fields(*v, *x),
        }),
{
    let mut fields: Vec<(&'static str, Binary64)> = vec![
        ("offset_ns", v.offset),
        ("delay_ns", v.delay),
        ("jitter_ns", v.jitter),
        ("score", x.score),
        ("weight", x.weight),
        ("stratum", v.stratum),
        ("drift_ppm", v.drift_ppm),
        ("remote_time_s", x.remote_time_s),
        ("system_delta_s", x.system_delta_s),
    ];
    if let Some(distance) = x.offset_vs_mean {
        fields.push(("offset_vs_mean_ns", distance));
    }
    if let Some(ping_ms) = x.ping_ms {
        fields.push(("ping_ms", ping_ms));
    }
    assert(field_views(fields@) =~= summary_fields(*v, *x));
    StoreOp::HmSet { key: ntp_hash_key(id, "summary"), fields }
}

/// The identifiers of the servers other than `current`, in the order of the configuration.
pub open spec fn other_ids(sources: Seq<NtpSource>, current: u32) -> Seq<u32>
    decreases sources.len(),
{
    if sources.len() == 0 {
        Seq::empty()
    } else {
        let before = other_ids(sources.drop_last(), current);
        if sources.last().id != current {
            before.push(sources.last().id)
        } else {
            before
        }
    }
}

/// The identifiers of the servers whose offsets enter the mean that `current` is compared with.
pub fn other_source_ids(sources: &Vec<NtpSource>, current: u32) -> (ids: Vec<u32>)
    ensures
        ids@ == other_ids(sources@, current),
{
    let mut ids: Vec<u32> = Vec::new();
    let mut i: usize = 0;
    while i < sources.len()
        invariant
            i <= sources@.len(),
            ids@ == other_ids(sources@.take(i as int), current),
        decreases sources@.len() - i,
    {
        assert(sources@.take(i + 1).drop_last() =~= sources@.take(i as int));
        if sources[i].id != current {
            ids.push(sources[i].id);
        }
        i += 1;
    }
    assert(sources@.take(i as int) =~= sources@);
    ids
}

/// A server is compared with every other server and never with itself.
pub proof fn law_mean_excludes_the_server_itself(sources: Seq<NtpSource>, current: u32)
    ensures
        !other_ids(sources, current).contains(current),
        forall|i: int|
            0 <= i < sources.len() && (#[trigger] sources[i]).id != current ==> other_ids(
                sources,
                current,
            ).contains(sources[i].id),
    decreases sources.len(),
{
    if sources.len() > 0 {
        let rest = sources.drop_last();
        let before = other_ids(rest, current);
        law_mean_excludes_the_server_itself(rest, current);
        assert forall|i: int|
            0 <= i < sources.len() && (#[trigger] sources[i]).id != current implies other_ids(
            sources,
            current,
        ).contains(sources[i].id) by {
            let all = other_ids(sources, current);
            if i < sources.len() - 1 {
                assert(rest[i] == sources[i]);
                assert(before.contains(rest[i].id));
                let k = choose|k: int| 0 <= k < before.len() && before[k] == sources[i].id;
                assert(all[k] == before[k]);
            } else {
                assert(all[all.len() - 1] == sources[i].id);
            }
        }
    }
}

/// A server is polled at most four times a second.
pub proof fn law_polls_are_spaced(source: NtpSource)
    ensures
        settings_of(source).poll_ms >= MIN_POLL_MS,
{
}

/// Failed rounds leave no trace: however many follow a successful poll, the next one is compared
/// with that poll, as if they had not happened.
pub proof fn law_failed_polls_leave_no_trace(
    state: PollState,
    last: PolledPoint,
    failures: Seq<Option<PolledPoint>>,
)
    requires
        forall|i: int| 0 <= i < failures.len() ==> #[trigger] failures[i] is None,
    ensures
        state_after_all(state, failures) == state,
        state_after_all(state, seq![Some(last)] + failures) == last.remembered(),
    decreases failures.len(),
{
    let rounds = seq![Some(last)] + failures;
    if failures.len() > 0 {
        let fewer = failures.drop_last();
        assert forall|i: int| 0 <= i < fewer.len() implies #[trigger] fewer[i] is None by {
            assert(failures[i] is None);
        }
        law_failed_polls_leave_no_trace(state, last, fewer);
        assert(rounds.drop_last() =~= seq![Some(last)] + fewer);
        assert(failures.last() == failures[failures.len() - 1]);
        assert(rounds.last() == failures.last());
    } else {
        assert(rounds =~= seq![Some(last)]);
        assert(rounds.drop_last() =~= Seq::empty());
        assert(state_after_all(state, rounds.drop_last()) == state);
    }
}

/// Each poll is compared with the one before it. The first poll records no jitter and no drift.
/// The second records as jitter the change from the first delay, and as drift the change from the
/// first offset over the time between the two, or none where the clock did not advance; in the
/// series under the time of the second poll, and in its summary.
pub proof fn law_polls_compare_with_the_one_before(
    first: PolledPoint,
    second: PolledPoint,
    changes: (Binary64, Binary64),
    slopes: (Binary64, Binary64),
    id: u32,
    stratum: Binary64,
    extras: PollExtras,
    window_ns: u64,
)
    ensures
        ({
            let fresh = PollState { last_delay: None, last_offset: None, last_ts: None };
            let zero = Binary64 { bits: 0 };
            let advanced = first.ts_ns < second.ts_ns;
            let derived = first.remembered().derived_spec(second.ts_ns, changes.1, slopes.1);
            let values = PollValues {
                offset: second.offset,
                delay: second.delay,
                jitter: derived.0,
                stratum,
                drift_ppm: derived.1,
            };
            let points = poll_points(id, second.ts_ns, values, window_ns);
            let drift = if advanced {
                slopes.1
            } else {
                zero
            };
            let summary = summary_fields(values, extras);
            &&& fresh.derived_spec(first.ts_ns, changes.0, slopes.0) == (zero, zero)
            &&& first.remembered().last_delay == Some(first.delay)
            &&& first.remembered().drift_base_spec(second.ts_ns) == (if advanced {
                Some(
                    DriftBase {
                        prev_offset: first.offset,
                        elapsed_ns: (second.ts_ns - first.ts_ns) as u64,
                    },
                )
            } else {
                None
            })
            &&& points[2] == ntp_point(id, "jitter"@, second.ts_ns, changes.1, window_ns)
            &&& points[4] == ntp_point(id, "drift_ppm"@, second.ts_ns, drift, window_ns)
            &&& summary[2] == ("jitter_ns"@, changes.1)
            &&& summary[6] == ("drift_ppm"@, drift)
        }),
{
}

/// A successful poll returns its own offset, delay and stratum, and records each of them, its
/// jitter and its drift at its own time, in the series of that name; the stratum as the quality.
pub proof fn law_polls_record_their_own_values(
    id: u32,
    state: PollState,
    sample: PolledSample,
    window_ns: u64,
)
    ensures
        ({
            let values = sample.values(state);
            let points = poll_points(id, sample.point.ts_ns, values, window_ns);
            let at = |field: Seq<char>, val: Binary64|
                StoreOpView::TsAdd {
                    key: ntp_series(id, field),
                    ts_ns: sample.point.ts_ns,
                    val,
                    window_ns,
                };
            &&& polled(Some(sample)) == Some(sample.point)
            &&& polled(None) is None
            &&& values.offset == sample.point.offset
            &&& values.delay == sample.point.delay
            &&& values.stratum == sample.stratum
            &&& points.len() == 5
            &&& points[0] == at("offset"@, sample.point.offset)
            &&& points[1] == at("delay"@, sample.point.delay)
            &&& points[2] == at("jitter"@, values.jitter)
            &&& points[3] == at("quality"@, sample.stratum)
            &&& points[4] == at("drift_ppm"@, values.drift_ppm)
        }),
{
}

/// A poll is remembered with its own delay, offset and time, from which the next one is compared.
/// Jitter is the change of the delay exactly where there was a delay before, and drift the slope
/// exactly where there was an offset before and time has passed since; both are zero otherwise.
pub proof fn law_polls_are_compared_where_they_can_be(
    state: PollState,
    point: PolledPoint,
    ts_ns: u64,
    change: Binary64,
    slope: Binary64,
)
    ensures
        state_after(state, Some(point)).last_delay == Some(point.delay),
        state_after(state, Some(point)).last_offset == Some(point.offset),
        state_after(state, Some(point)).last_ts == Some(point.ts_ns),
        state.last_delay is Some ==> state.derived_spec(ts_ns, change, slope).0 == change,
        state.last_delay is None ==> state.derived_spec(ts_ns, change, slope).0.bits == 0,
        state.last_offset is Some && state.last_ts is Some && state.last_ts->Some_0 < ts_ns
            ==> state.derived_spec(ts_ns, change, slope).1 == slope,
        state.last_offset is None || state.last_ts is None || state.last_ts->Some_0 >= ts_ns
            ==> state.derived_spec(ts_ns, change, slope).1.bits == 0,
{
}

/// A summary holds every value of its poll under the value's own name, and the two optional ones
/// exactly where they are there.
pub proof fn law_summaries_hold_the_poll(v: PollValues, x: PollExtras)
    ensures
        ({
            let fields = summary_fields(v, x);
            let optional = (if x.offset_vs_mean is Some {
                1int
            } else {
                0
            }) + (if x.ping_ms is Some {
                1int
            } else {
                0
            });
            &&& fields.len() == 9 + optional
            &&& fields[0] == ("offset_ns"@, v.offset)
            &&& fields[1] == ("delay_ns"@, v.delay)
            &&& fields[2] == ("jitter_ns"@, v.jitter)
            &&& fields[3] == ("score"@, x.score)
            &&& fields[4] == ("weight"@, x.weight)
            &&& fields[5] == ("stratum"@, v.stratum)
            &&& fields[6] == ("drift_ppm"@, v.drift_ppm)
            &&& fields[7] == ("remote_time_s"@, x.remote_time_s)
            &&& fields[8] == ("system_delta_s"@, x.system_delta_s)
            &&& x.offset_vs_mean matches Some(d) ==> fields[9] == ("offset_vs_mean_ns"@, d)
            &&& x.ping_ms matches Some(ms) ==> fields.last() == ("ping_ms"@, ms)
        }),
{
}

/// A configured setting holds, except that no server is polled more often than every 250 ms; the
/// others have their defaults.
pub proof fn law_configured_settings_hold(source: NtpSource)
    ensures
        ({
            let settings = settings_of(source);
            &&& source.poll_interval_ms matches Some(ms) ==> settings.poll_ms == (if ms >= 250 {
                ms
            } else {
                250
            })
            &&& source.poll_interval_ms is None ==> settings.poll_ms == 2_000
            &&& source.timeout_ms matches Some(ms) ==> settings.timeout_ms == ms
            &&& source.timeout_ms is None ==> settings.timeout_ms == 1_500
            &&& source.port matches Some(port) ==> settings.port == port
            &&& source.port is None ==> settings.port == 123
            &&& source.weight matches Some(weight) ==> settings.weight == weight
            &&& source.weight is None ==> settings.weight.bits == 0x3fc9_9999_9999_999a
        }),
{
}

/// The servers that a mean is taken over are all the others, once for each time they are
/// configured and in that order.
pub proof fn law_mean_is_over_the_other_servers(sources: Seq<NtpSource>, current: u32)
    ensures
        other_ids(sources, current) == sources.map_values(|s: NtpSource| s.id).filter(
            |id: u32| id != current,
        ),
    decreases sources.len(),
{
    let ids = sources.map_values(|s: NtpSource| s.id);
    reveal(Seq::filter);
    if sources.len() > 0 {
        law_mean_is_over_the_other_servers(sources.drop_last(), current);
        assert(ids.drop_last() =~= sources.drop_last().map_values(|s: NtpSource| s.id));
        assert(ids.last() == sources.last().id);
    }
}

} // verus!
