//! One round of fusion: which series to read, and what to record of the result.
use vstd::prelude::*;

use crate::binary64::{Binary64, ONE_BITS};
use crate::config::{Config, ModeCfg, NtpSource, PeerEntry};
use crate::net::node::{lemma_other_peers_step, other_peers};
use crate::net::ntp::NTP_DEFAULT_WEIGHT_BITS;
use crate::store::keys::{
    field_views, ntp_hash, ntp_hash_key, ntp_series, ntp_series_key, op_views, peer_hash,
    peer_hash_key, peer_series, peer_series_key, StoreOp, StoreOpView,
};
use crate::time::drift::{last_n, FusedRing, MIN_DRIFT_POINTS, RING_CAPACITY};
use crate::time::fuse::{PeerSample, TrimmedStats, WeightedEwma};

verus! {

/// A source that takes part in the fusion, with its weight and the keys of its series.
#[derive(Clone, Debug)]
pub struct FusionSource {
    pub id: u32,
    pub weight: Binary64,
    pub offset_key: String,
    pub delay_key: String,
    pub jitter_key: String,
}

/// The contents of a [`FusionSource`].
pub struct FusionSourceView {
    pub id: u32,
    pub weight: Binary64,
    pub offset_key: Seq<char>,
    pub delay_key: Seq<char>,
    pub jitter_key: Seq<char>,
}

impl View for FusionSource {
    type V = FusionSourceView;

    open spec fn view(&self) -> FusionSourceView {
        FusionSourceView {
            id: self.id,
            weight: self.weight,
            offset_key: self.offset_key@,
            delay_key: self.delay_key@,
            jitter_key: self.jitter_key@,
        }
    }
}

/// The weight, or the one with these bits where none is configured.
pub open spec fn weight_or(weight: Option<Binary64>, default_bits: u64) -> Binary64 {
    match weight {
        Some(w) => w,
        None => Binary64 { bits: default_bits },
    }
}

/// A peer as a source; its weight is one unless configured.
pub open spec fn peer_fusion_source(peer: PeerEntry) -> FusionSourceView {
    FusionSourceView {
        id: peer.id,
        weight: weight_or(peer.weight, ONE_BITS),
        offset_key: peer_series(peer.id, "offset"@),
        delay_key: peer_series(peer.id, "delay"@),
        jitter_key: peer_series(peer.id, "jitter"@),
    }
}

/// An NTP server as a source; its weight is low unless configured.
pub open spec fn ntp_fusion_source(source: NtpSource) -> FusionSourceView {
    FusionSourceView {
        id: source.id,
        weight: weight_or(source.weight, NTP_DEFAULT_WEIGHT_BITS),
        offset_key: ntp_series(source.id, "offset"@),
        delay_key: ntp_series(source.id, "delay"@),
        jitter_key: ntp_series(source.id, "jitter"@),
    }
}

/// The other peers, then the NTP servers, each in the order of the configuration.
pub open spec fn fusion_source_views(cfg: Config) -> Seq<FusionSourceView> {
    other_peers(cfg.peers@, cfg.node_id).map_values(|p: PeerEntry| peer_fusion_source(p))
        + cfg.ntp_sources@.map_values(|s: NtpSource| ntp_fusion_source(s))
}

/// The contents of a list of sources.
pub open spec fn fusion_views(sources: Seq<FusionSource>) -> Seq<FusionSourceView> {
    sources.map_values(|s: FusionSource| s@)
}

fn from_peer(peer: &PeerEntry) -> (source: FusionSource)
    ensures
        source@ == peer_fusion_source(*peer),
{
    FusionSource {
        id: peer.id,
        weight: peer.weight.unwrap_or(Binary64 { bits: ONE_BITS }),
        offset_key: peer_series_key(peer.id, "offset"),
        delay_key: peer_series_key(peer.id, "delay"),
        jitter_key: peer_series_key(peer.id, "jitter"),
    }
}

fn from_ntp(source: &NtpSource) -> (fused: FusionSource)
    ensures
        fused@ == ntp_fusion_source(*source),
{
    FusionSource {
        id: source.id,
        weight: source.weight.unwrap_or(Binary64 { bits: NTP_DEFAULT_WEIGHT_BITS }),
        offset_key: ntp_series_key(source.id, "offset"),
        delay_key: ntp_series_key(source.id, "delay"),
        jitter_key: ntp_series_key(source.id, "jitter"),
    }
}

/// Every source that takes part in the fusion: the other peers, then the NTP servers.
pub fn fusion_sources(cfg: &Config) -> (sources: Vec<FusionSource>)
    ensures
        fusion_views(sources@) == fusion_source_views(*cfg),
{
    let mut sources: Vec<FusionSource> = Vec::new();
    let mut i: usize = 0;
    assert(other_peers(cfg.peers@.take(0), cfg.node_id) =~= Seq::empty()) by {
        reveal(Seq::filter);
    }
    while i < cfg.peers.len()
        invariant
            i <= cfg.peers@.len(),
            fusion_views(sources@) == other_peers(
                cfg.peers@.take(i as int),
                cfg.node_id,
            ).map_values(|p: PeerEntry| peer_fusion_source(p)),
        decreases cfg.peers@.len() - i,
    {
        proof {
            lemma_other_peers_step(cfg.peers@, cfg.node_id, i as int);
        }
        let ghost before = fusion_views(sources@);
        if cfg.peers[i].id != cfg.node_id {
            let source = from_peer(&cfg.peers[i]);
            sources.push(source);
            assert(fusion_views(sources@) =~= before.push(source@));
            assert(other_peers(cfg.peers@.take(i + 1), cfg.node_id).map_values(
                |p: PeerEntry| peer_fusion_source(p),
            ) =~= before.push(source@));
        }
        i += 1;
    }
    assert(cfg.peers@.take(i as int) =~= cfg.peers@);
    let ghost from_peers = fusion_views(sources@);
    let mut k: usize = 0;
    assert(cfg.ntp_sources@.take(0).map_values(|s: NtpSource| ntp_fusion_source(s))
        =~= Seq::empty());
    assert(fusion_views(sources@) =~= from_peers + Seq::empty());
    while k < cfg.ntp_sources.len()
        invariant
            k <= cfg.ntp_sources@.len(),
            fusion_views(sources@) == from_peers + cfg.ntp_sources@.take(k as int).map_values(
                |s: NtpSource| ntp_fusion_source(s),
            ),
        decreases cfg.ntp_sources@.len() - k,
    {
        let ghost before = fusion_views(sources@);
        let source = from_ntp(&cfg.ntp_sources[k]);
        sources.push(source);
        assert(fusion_views(sources@) =~= before.push(source@));
        assert(from_peers + cfg.ntp_sources@.take(k + 1).map_values(
            |s: NtpSource| ntp_fusion_source(s),
        ) =~= before.push(source@));
        k += 1;
    }
    assert(cfg.ntp_sources@.take(k as int) =~= cfg.ntp_sources@);
    sources
}

/// Whether a node fuses at all: one without peers does not.
pub fn fusion_enabled(cfg: &Config) -> (enabled: bool)
    ensures
        enabled == (cfg.peers@.len() > 0),
{
    cfg.peers.len() > 0
}

/// How many samples of each series are read, and a source needs to take part: at least one.
pub fn sample_limit(cfg: &Config) -> (limit: usize)
    ensures
        limit == (if cfg.filter.min_samples_per_peer == 0 {
            1
        } else {
            cfg.filter.min_samples_per_peer as int
        }),
{
    if cfg.filter.min_samples_per_peer == 0 {
        1
    } else {
        cfg.filter.min_samples_per_peer as usize
    }
}

/// Start of the statistics window that ends at `now_ns`.
pub fn window_start(now_ns: u64, window_ns: u64) -> (since: u64)
    ensures
        since == (if now_ns >= window_ns {
            now_ns - window_ns
        } else {
            0
        }),
{
    now_ns.saturating_sub(window_ns)
}

/// Whether a source with this many recent offsets takes part in a round.
pub fn takes_part(offsets: usize, limit: usize) -> (enough: bool)
    ensures
        enough == (offsets >= limit),
{
    offsets >= limit
}

/// A point of a series that belongs to no source.
pub open spec fn global_point(
    key: Seq<char>,
    ts_ns: u64,
    val: Binary64,
    window_ns: u64,
) -> StoreOpView {
    StoreOpView::TsAdd { key, ts_ns, val, window_ns }
}

fn global_point_op(key: &str, ts_ns: u64, val: Binary64, window_ns: u64) -> (op: StoreOp)
    ensures
        op@ == global_point(key@, ts_ns, val, window_ns),
{
    StoreOp::TsAdd { key: key.to_string(), ts_ns, val, window_ns }
}

/// The records of a fused result and its smoothed offset.
pub open spec fn fused_points(
    fused: TrimmedStats,
    smoothed: Binary64,
    ts_ns: u64,
    window_ns: u64,
) -> Seq<StoreOpView> {
    seq![
        global_point("ts:fused:offset"@, ts_ns, fused.mean_offset_ns, window_ns),
        global_point("ts:fused:delay"@, ts_ns, fused.mean_delay_ns, window_ns),
        global_point("ts:fused:ewma"@, ts_ns, smoothed, window_ns),
    ]
}

fn fused_ops(fused: &TrimmedStats, smoothed: Binary64, ts_ns: u64, window_ns: u64) -> (ops: Vec<
    StoreOp,
>)
    ensures
        op_views(ops@) == fused_points(*fused, smoothed, ts_ns, window_ns),
{
    let mut ops: Vec<StoreOp> = Vec::new();
    ops.push(global_point_op("ts:fused:offset", ts_ns, fused.mean_offset_ns, window_ns));
    ops.push(global_point_op("ts:fused:delay", ts_ns, fused.mean_delay_ns, window_ns));
    ops.push(global_point_op("ts:fused:ewma", ts_ns, smoothed, window_ns));
    assert(op_views(ops@) =~= fused_points(*fused, smoothed, ts_ns, window_ns));
    ops
}

/// What carries over from one round to the next.
#[derive(Clone, Debug)]
pub struct FusionState {
    pub ewma: WeightedEwma,
    pub ring: FusedRing,
}

/// What follows from the fused result of a round.
#[derive(Debug)]
pub struct RoundStep {
    /// The smoothed offset.
    pub smoothed: Binary64,
    /// What to record.
    pub ops: Vec<StoreOp>,
    /// Whether the history now suffices for a drift estimate.
    pub wants_drift: bool,
}

/// What follows from a drift estimate.
#[derive(Debug)]
pub struct DriftStep {
    /// What to record.
    pub op: StoreOp,
    /// Whether the system clock is to be corrected.
    pub correct_clock: bool,
}

impl FusionState {
    /// The state before the first round, smoothing at `lambda` limited to the unit interval.
    pub fn new(lambda: Binary64) -> (state: Self)
        ensures
            state.ewma.lambda_spec() == lambda.clamp_spec(
                Binary64 { bits: 0 },
                Binary64 { bits: ONE_BITS },
            ),
            state.ewma.state_spec() is None,
            state.ring.points@ == Seq::<(u64, i64)>::empty(),
    {
        FusionState { ewma: WeightedEwma::new(lambda), ring: FusedRing::new() }
    }

    /// Takes in the fused result of a round at `ts_ns`. `blended` is its offset blended with the
    /// current state of the average, and `whole_ns` the smoothed offset in whole nanoseconds.
    pub fn take_in(
        &mut self,
        fused: &TrimmedStats,
        blended: Binary64,
        whole_ns: i64,
        ts_ns: u64,
        window_ns: u64,
    ) -> (step: RoundStep)
        ensures
            step.smoothed == (if old(self).ewma.state_spec() is None {
                fused.mean_offset_ns
            } else {
                blended
            }),
            op_views(step.ops@) == fused_points(*fused, step.smoothed, ts_ns, window_ns),
            step.wants_drift == (final(self).ring.points@.len() >= MIN_DRIFT_POINTS),
            final(self).ewma.state_spec() == Some(step.smoothed),
            final(self).ewma.lambda_spec() == old(self).ewma.lambda_spec(),
            final(self).ring.points@ == last_n(
                old(self).ring.points@.push((ts_ns, whole_ns)),
                RING_CAPACITY as int,
            ),
    {
        let smoothed = self.ewma.push(fused.mean_offset_ns, blended);
        self.ring.push(ts_ns, whole_ns);
        RoundStep {
            smoothed,
            ops: fused_ops(fused, smoothed, ts_ns, window_ns),
            wants_drift: self.ring.drift_ready(),
        }
    }
}

/// What follows from a drift estimate: it is recorded, and where the mode allows it the system
/// clock is corrected.
pub fn drift_step(mode: &ModeCfg, drift_ppm: Binary64, ts_ns: u64, window_ns: u64) -> (step: DriftStep)
    ensures
        step.op@ == global_point("ts:fused:drift_ppm"@, ts_ns, drift_ppm, window_ns),
        step.correct_clock == (mode.control_enable && !mode.observer_only),
{
    DriftStep {
        op: global_point_op("ts:fused:drift_ppm", ts_ns, drift_ppm, window_ns),
        correct_clock: mode.may_control(),
    }
}

/// The records of the PHC's offset from the system clock and of the smoothed offset's distance
/// from it.
pub fn phc_ops(phc_offset: Binary64, delta: Binary64, ts_ns: u64, window_ns: u64) -> (ops: Vec<
    StoreOp,
>)
    ensures
        op_views(ops@) == phc_points(phc_offset, delta, ts_ns, window_ns),
{
    let mut ops: Vec<StoreOp> = Vec::new();
    ops.push(global_point_op("ts:phc:system_offset", ts_ns, phc_offset, window_ns));
    ops.push(global_point_op("ts:phc:fused_delta", ts_ns, delta, window_ns));
    assert(op_views(ops@) =~= phc_points(phc_offset, delta, ts_ns, window_ns));
    ops
}

/// A peer with this identifier is configured.
pub open spec fn is_peer(peers: Seq<PeerEntry>, id: u32) -> bool {
    exists|i: int| 0 <= i < peers.len() && (#[trigger] peers[i]).id == id
}

/// An NTP server with this identifier is configured.
pub open spec fn is_ntp_source(sources: Seq<NtpSource>, id: u32) -> bool {
    exists|i: int| 0 <= i < sources.len() && (#[trigger] sources[i]).id == id
}

fn has_peer(peers: &Vec<PeerEntry>, id: u32) -> (found: bool)
    ensures
        found == is_peer(peers@, id),
{
    let mut i: usize = 0;
    while i < peers.len()
        invariant
            i <= peers@.len(),
            forall|k: int| 0 <= k < i ==> (#[trigger] peers@[k]).id != id,
        decreases peers@.len() - i,
    {
        if peers[i].id == id {
            return true;
        }
        i += 1;
    }
    false
}

fn has_ntp_source(sources: &Vec<NtpSource>, id: u32) -> (found: bool)
    ensures
        found == is_ntp_source(sources@, id),
{
    let mut i: usize = 0;
    while i < sources.len()
        invariant
            i <= sources@.len(),
            forall|k: int| 0 <= k < i ==> (#[trigger] sources@[k]).id != id,
        decreases sources@.len() - i,
    {
        if sources[i].id == id {
            return true;
        }
        i += 1;
    }
    false
}

/// Where a source's summary is kept: with the peers, unless only an NTP server has this
/// identifier.
pub open spec fn summary_key(cfg: Config, id: u32) -> Seq<char> {
    if !is_peer(cfg.peers@, id) && is_ntp_source(cfg.ntp_sources@, id) {
        ntp_hash(id, "summary"@)
    } else {
        peer_hash(id, "summary"@)
    }
}

/// The summary of one source.
pub open spec fn sample_summary(cfg: Config, sample: PeerSample, score: Binary64) -> StoreOpView {
    StoreOpView::HmSet {
        key: summary_key(cfg, sample.peer_id),
        fields: seq![
            ("offset_ns"@, sample.offset_median_ns),
            ("delay_ns"@, sample.delay_median_ns),
            ("jitter_ns"@, sample.jitter_median_ns),
            ("score"@, score),
        ],
    }
}

/// The summaries of all sources in order.
pub open spec fn sample_summaries(
    cfg: Config,
    samples: Seq<PeerSample>,
    scores: Seq<Binary64>,
) -> Seq<StoreOpView> {
    Seq::new(samples.len(), |i: int| sample_summary(cfg, samples[i], scores[i]))
}

/// The summary of the fused result.
pub open spec fn fused_summary(fused: TrimmedStats, smoothed: Binary64) -> StoreOpView {
    StoreOpView::HmSet {
        key: "hash:fused:summary"@,
        fields: seq![
            ("smoothed_offset_ns"@, smoothed),
            ("raw_offset_ns"@, fused.mean_offset_ns),
            ("mean_delay_ns"@, fused.mean_delay_ns),
            ("weight_sum"@, fused.total_weight),
        ],
    }
}

/// What a node that is listed among its own peers records of itself.
pub open spec fn self_summary(cfg: Config, smoothed: Binary64) -> Seq<StoreOpView> {
    if is_peer(cfg.peers@, cfg.node_id) {
        seq![
            StoreOpView::HmSet {
                key: peer_hash(cfg.node_id, "self"@),
                fields: seq![("last_ewma_ns"@, smoothed)],
            },
        ]
    } else {
        Seq::empty()
    }
}

fn summary_op(cfg: &Config, sample: &PeerSample, score: Binary64) -> (op: StoreOp)
    ensures
        op@ == sample_summary(*cfg, *sample, score),
{
    let key = if !has_peer(&cfg.peers, sample.peer_id) && has_ntp_source(
        &cfg.ntp_sources,
        sample.peer_id,
    ) {
        ntp_hash_key(sample.peer_id, "summary")
    } else {
        peer_hash_key(sample.peer_id, "summary")
    };
    let fields: Vec<(&'static str, Binary64)> = vec![
        ("offset_ns", sample.offset_median_ns),
        ("delay_ns", sample.delay_median_ns),
        ("jitter_ns", sample.jitter_median_ns),
        ("score", score),
    ];
    assert(field_views(fields@) =~= seq![
        ("offset_ns"@, sample.offset_median_ns),
        ("delay_ns"@, sample.delay_median_ns),
        ("jitter_ns"@, sample.jitter_median_ns),
        ("score"@, score),
    ]);
    StoreOp::HmSet { key, fields }
}

/// The summaries of a round: one per source, with its score, then the fused result, then what the
/// node records of itself.
pub fn summary_ops(
    cfg: &Config,
    samples: &Vec<PeerSample>,
    scores: &Vec<Binary64>,
    fused: &TrimmedStats,
    smoothed: Binary64,
) -> (ops: Vec<StoreOp>)
    requires
        scores@.len() == samples@.len(),
    ensures
        op_views(ops@) == sample_summaries(*cfg, samples@, scores@).push(
            fused_summary(*fused, smoothed),
        ) + self_summary(*cfg, smoothed),
{
    let mut ops: Vec<StoreOp> = Vec::new();
    let mut i: usize = 0;
    while i < samples.len()
        invariant
            i <= samples@.len(),
            scores@.len() == samples@.len(),
            op_views(ops@) == sample_summaries(*cfg, samples@, scores@).take(i as int),
        decreases samples@.len() - i,
    {
        let ghost before = op_views(ops@);
        let op = summary_op(cfg, &samples[i], scores[i]);
        ops.push(op);
        assert(op_views(ops@) =~= before.push(op@));
        assert(sample_summaries(*cfg, samples@, scores@).take(i + 1) =~= before.push(op@));
        i += 1;
    }
    let ghost summaries = sample_summaries(*cfg, samples@, scores@);
    assert(summaries.take(i as int) =~= summaries);
    let fields: Vec<(&'static str, Binary64)> = vec![
        ("smoothed_offset_ns", smoothed),
        ("raw_offset_ns", fused.mean_offset_ns),
        ("mean_delay_ns", fused.mean_delay_ns),
        ("weight_sum", fused.total_weight),
    ];
    assert(field_views(fields@) =~= seq![
        ("smoothed_offset_ns"@, smoothed),
        ("raw_offset_ns"@, fused.mean_offset_ns),
        ("mean_delay_ns"@, fused.mean_delay_ns),
        ("weight_sum"@, fused.total_weight),
    ]);
    ops.push(StoreOp::HmSet { key: "hash:fused:summary".to_string(), fields });
    assert(op_views(ops@) =~= summaries.push(fused_summary(*fused, smoothed)));
    if has_peer(&cfg.peers, cfg.node_id) {
        let own: Vec<(&'static str, Binary64)> = vec![("last_ewma_ns", smoothed)];
        assert(field_views(own@) =~= seq![("last_ewma_ns"@, smoothed)]);
        ops.push(StoreOp::HmSet { key: peer_hash_key(cfg.node_id, "self"), fields: own });
    }
    assert(op_views(ops@) =~= summaries.push(fused_summary(*fused, smoothed)) + self_summary(
        *cfg,
        smoothed,
    ));
    ops
}

/// A round whose samples were fused.
#[derive(Clone, Debug)]
pub struct FusedRound {
    pub samples: Vec<PeerSample>,
    /// The score of each sample.
    pub scores: Vec<Binary64>,
    pub fused: TrimmedStats,
    pub smoothed: Binary64,
    pub ts_ns: u64,
}

/// How far a round has come.
#[derive(Clone, Debug)]
pub enum RoundPhase {
    /// The series of the sources are being read.
    Reading,
    /// The samples are to be selected, trimmed and fused.
    Fusing(Vec<PeerSample>),
    /// The drift is to be estimated.
    Estimating(FusedRound),
    /// The PHC is to be compared with the system clock.
    Comparing(FusedRound),
    /// Nothing is left to do.
    Over,
}

/// What happened in a round.
#[derive(Clone, Debug)]
pub enum RoundEvent {
    /// A series could not be read.
    ReadFailed,
    /// These are the samples of the sources that take part.
    SamplesRead(Vec<PeerSample>),
    /// The samples, with these scores, were fused at `ts_ns`.
    Fused {
        scores: Vec<Binary64>,
        fused: TrimmedStats,
        /// The fused offset, blended with the current state of the average.
        blended: Binary64,
        /// The smoothed offset in whole nanoseconds.
        whole_ns: i64,
        ts_ns: u64,
    },
    /// The drift was estimated.
    Drift(Binary64),
    /// There is no PHC.
    NoPhc,
    /// The PHC is ahead of the system clock by `offset`, and the smoothed offset by `delta` more.
    PhcOffset { offset: Binary64, delta: Binary64 },
    /// A clock could not be read.
    PhcFailed,
}

/// What follows from an event.
#[derive(Debug)]
pub struct RoundAction {
    /// How far the round has come now.
    pub phase: RoundPhase,
    /// What to record.
    pub ops: Vec<StoreOp>,
    /// Whether the system clock is to be corrected.
    pub correct_clock: bool,
}

impl FusedRound {
    /// Every sample has its score.
    pub open spec fn is_scored(self) -> bool {
        self.scores@.len() == self.samples@.len()
    }

    /// The summaries that close the round.
    pub open spec fn summaries(self, cfg: Config) -> Seq<StoreOpView> {
        sample_summaries(cfg, self.samples@, self.scores@).push(
            fused_summary(self.fused, self.smoothed),
        ) + self_summary(cfg, self.smoothed)
    }
}

impl RoundPhase {
    /// Every sample of a fused round has its score.
    pub open spec fn is_scored(self) -> bool {
        match self {
            RoundPhase::Estimating(round) => round.is_scored(),
            RoundPhase::Comparing(round) => round.is_scored(),
            _ => true,
        }
    }
}

/// `event` can happen in `phase`: a round that is fused comes with a score for every sample.
pub open spec fn event_fits(phase: RoundPhase, event: RoundEvent) -> bool {
    match (phase, event) {
        (RoundPhase::Fusing(samples), RoundEvent::Fused { scores, .. }) => scores@.len()
            == samples@.len(),
        _ => true,
    }
}

/// The records of the PHC's offset and of the smoothed offset's distance from it.
pub open spec fn phc_points(
    offset: Binary64,
    delta: Binary64,
    ts_ns: u64,
    window_ns: u64,
) -> Seq<StoreOpView> {
    seq![
        global_point("ts:phc:system_offset"@, ts_ns, offset, window_ns),
        global_point("ts:phc:fused_delta"@, ts_ns, delta, window_ns),
    ]
}

/// `after` is the state `before` once a fused result was taken in, and `smoothed` its smoothed
/// offset.
pub open spec fn has_taken_in(
    before: FusionState,
    after: FusionState,
    fused: TrimmedStats,
    blended: Binary64,
    whole_ns: i64,
    ts_ns: u64,
    smoothed: Binary64,
) -> bool {
    &&& smoothed == (if before.ewma.state_spec() is None {
        fused.mean_offset_ns
    } else {
        blended
    })
    &&& after.ewma.state_spec() == Some(smoothed)
    &&& after.ewma.lambda_spec() == before.ewma.lambda_spec()
    &&& after.ring.points@ == last_n(
        before.ring.points@.push((ts_ns, whole_ns)),
        RING_CAPACITY as int,
    )
}

/// The round is over, with these records, and the clock stays as it is.
pub open spec fn ends_with(action: RoundAction, ops: Seq<StoreOpView>) -> bool {
    &&& action.phase is Over
    &&& op_views(action.ops@) == ops
    &&& !action.correct_clock
}

/// `action` and the state `after` are what follows from `event` in `phase` and the state
/// `before`. An event that does not belong to the phase ends the round and changes nothing.
pub open spec fn is_round_step(
    cfg: Config,
    window_ns: u64,
    before: FusionState,
    phase: RoundPhase,
    event: RoundEvent,
    after: FusionState,
    action: RoundAction,
) -> bool {
    match (phase, event) {
        (RoundPhase::Reading, RoundEvent::SamplesRead(samples)) => {
            &&& after == before
            &&& if samples@.len() == 0 {
                ends_with(action, Seq::empty())
            } else {
                &&& action.phase == RoundPhase::Fusing(samples)
                &&& op_views(action.ops@) == Seq::<StoreOpView>::empty()
                &&& !action.correct_clock
            }
        },
        (
            RoundPhase::Fusing(samples),
            RoundEvent::Fused { scores, fused, blended, whole_ns, ts_ns },
        ) => if fused.kept@.len() == 0 {
            after == before && ends_with(action, Seq::empty())
        } else {
            &&& action.phase is Estimating || action.phase is Comparing
            &&& action.phase is Estimating <==> after.ring.points@.len() >= MIN_DRIFT_POINTS
            &&& ({
                let round = match action.phase {
                    RoundPhase::Estimating(round) => round,
                    _ => action.phase->Comparing_0,
                };
                &&& round.samples == samples
                &&& round.scores == scores
                &&& round.fused == fused
                &&& round.ts_ns == ts_ns
                &&& has_taken_in(before, after, fused, blended, whole_ns, ts_ns, round.smoothed)
                &&& op_views(action.ops@) == fused_points(fused, round.smoothed, ts_ns, window_ns)
            })
            &&& !action.correct_clock
        },
        (RoundPhase::Estimating(round), RoundEvent::Drift(drift_ppm)) => {
            &&& after == before
            &&& action.phase == RoundPhase::Comparing(round)
            &&& op_views(action.ops@) == seq![
                global_point("ts:fused:drift_ppm"@, round.ts_ns, drift_ppm, window_ns),
            ]
            &&& action.correct_clock == (cfg.mode.control_enable && !cfg.mode.observer_only)
        },
        (RoundPhase::Comparing(round), RoundEvent::NoPhc) => {
            after == before && ends_with(action, round.summaries(cfg))
        },
        (RoundPhase::Comparing(round), RoundEvent::PhcOffset { offset, delta }) => {
            after == before && ends_with(
                action,
                phc_points(offset, delta, round.ts_ns, window_ns) + round.summaries(cfg),
            )
        },
        _ => after == before && ends_with(action, Seq::empty()),
    }
}

fn round_over(ops: Vec<StoreOp>) -> (action: RoundAction)
    ensures
        ends_with(action, op_views(ops@)),
{
    RoundAction { phase: RoundPhase::Over, ops, correct_clock: false }
}

fn nothing() -> (ops: Vec<StoreOp>)
    ensures
        op_views(ops@) == Seq::<StoreOpView>::empty(),
{
    let ops: Vec<StoreOp> = Vec::new();
    assert(op_views(ops@) =~= Seq::<StoreOpView>::empty());
    ops
}

fn closing_ops(cfg: &Config, round: &FusedRound) -> (ops: Vec<StoreOp>)
    requires
        round.is_scored(),
    ensures
        op_views(ops@) == round.summaries(*cfg),
{
    summary_ops(cfg, &round.samples, &round.scores, &round.fused, round.smoothed)
}

impl FusionState {
    /// Moves a round on by one event.
    pub fn step(
        &mut self,
        cfg: &Config,
        window_ns: u64,
        phase: RoundPhase,
        event: RoundEvent,
    ) -> (action: RoundAction)
        requires
            phase.is_scored(),
            event_fits(phase, event),
        ensures
            is_round_step(*cfg, window_ns, *old(self), phase, event, *final(self), action),
            action.phase.is_scored(),
    {
        match phase {
            RoundPhase::Reading => match event {
                RoundEvent::SamplesRead(samples) => {
                    if samples.len() == 0 {
                        return round_over(nothing());
                    }
                    RoundAction {
                        phase: RoundPhase::Fusing(samples),
                        ops: nothing(),
                        correct_clock: false,
                    }
                },
                _ => round_over(nothing()),
            },
            RoundPhase::Fusing(samples) => match event {
                RoundEvent::Fused { scores, fused, blended, whole_ns, ts_ns } => {
                    if fused.is_empty() {
                        return round_over(nothing());
                    }
                    let taken = self.take_in(
                        fused.weighted_mean(),
                        blended,
                        whole_ns,
                        ts_ns,
                        window_ns,
                    );
                    let round = FusedRound {
                        samples,
                        scores,
                        fused,
                        smoothed: taken.smoothed,
                        ts_ns,
                    };
                    let next = if taken.wants_drift {
                        RoundPhase::Estimating(round)
                    } else {
                        RoundPhase::Comparing(round)
                    };
                    RoundAction { phase: next, ops: taken.ops, correct_clock: false }
                },
                _ => round_over(nothing()),
            },
            RoundPhase::Estimating(round) => match event {
                RoundEvent::Drift(drift_ppm) => {
                    let drift = drift_step(&cfg.mode, drift_ppm, round.ts_ns, window_ns);
                    let correct_clock: bool = drift.correct_clock;
                    let ghost point = drift.op@;
                    let mut ops: Vec<StoreOp> = Vec::new();
                    ops.push(drift.op);
                    assert(op_views(ops@) =~= seq![point]);
                    RoundAction { phase: RoundPhase::Comparing(round), ops, correct_clock }
                },
                _ => round_over(nothing()),
            },
            RoundPhase::Comparing(round) => match event {
                RoundEvent::NoPhc => round_over(closing_ops(cfg, &round)),
                RoundEvent::PhcOffset { offset, delta } => {
                    let mut ops: Vec<StoreOp> = phc_ops(offset, delta, round.ts_ns, window_ns);
                    let mut closing: Vec<StoreOp> = closing_ops(cfg, &round);
                    let ghost (points, summaries) = (ops@, closing@);
                    ops.append(&mut closing);
                    assert(op_views(ops@) =~= op_views(points) + op_views(summaries));
                    round_over(ops)
                },
                _ => round_over(nothing()),
            },
            RoundPhase::Over => round_over(nothing()),
        }
    }
}

/// A round in which a series cannot be read, or no source takes part, changes and records nothing.
pub proof fn law_round_without_samples_leaves_no_trace(
    cfg: Config,
    window_ns: u64,
    before: FusionState,
    event: RoundEvent,
    after: FusionState,
    action: RoundAction,
)
    requires
        event is ReadFailed || (event matches RoundEvent::SamplesRead(samples) && samples@.len()
            == 0),
        is_round_step(cfg, window_ns, before, RoundPhase::Reading, event, after, action),
    ensures
        after == before,
        ends_with(action, Seq::empty()),
{
}

/// Where the clocks cannot be read, a round ends after the fused points were recorded and before
/// the summaries, and what it took in stays.
pub proof fn law_unreadable_phc_ends_the_round(
    cfg: Config,
    window_ns: u64,
    states: (FusionState, FusionState, FusionState),
    samples: Vec<PeerSample>,
    fused: RoundEvent,
    first: RoundAction,
    last: RoundAction,
)
    requires
        fused matches RoundEvent::Fused { fused: stats, .. } && stats.kept@.len() > 0,
        is_round_step(
            cfg,
            window_ns,
            states.0,
            RoundPhase::Fusing(samples),
            fused,
            states.1,
            first,
        ),
        first.phase is Comparing,
        is_round_step(
            cfg,
            window_ns,
            states.1,
            first.phase,
            RoundEvent::PhcFailed,
            states.2,
            last,
        ),
    ensures
        op_views(first.ops@) == fused_points(
            fused->Fused_fused,
            first.phase->Comparing_0.smoothed,
            fused->Fused_ts_ns,
            window_ns,
        ),
        states.2 == states.1,
        ends_with(last, Seq::empty()),
{
}

/// The system clock is corrected only after a drift estimate, and only where the mode allows it.
pub proof fn law_clock_is_corrected_only_with_leave(
    cfg: Config,
    window_ns: u64,
    before: FusionState,
    phase: RoundPhase,
    event: RoundEvent,
    after: FusionState,
    action: RoundAction,
)
    requires
        is_round_step(cfg, window_ns, before, phase, event, after, action),
        action.correct_clock,
    ensures
        phase is Estimating,
        event is Drift,
        cfg.mode.control_enable,
        !cfg.mode.observer_only,
{
}

/// A node takes no part in its own fusion as a peer: none of the peer sources carries its
/// identifier.
pub proof fn law_own_series_are_not_fused(cfg: Config, i: int)
    requires
        0 <= i < other_peers(cfg.peers@, cfg.node_id).len(),
    ensures
        fusion_source_views(cfg)[i].id != cfg.node_id,
        fusion_source_views(cfg)[i].offset_key != peer_series(cfg.node_id, "offset"@),
{
    broadcast use vstd::seq_lib::group_filter_ensures;

    let keep = |p: PeerEntry| p.id != cfg.node_id;
    let peer = other_peers(cfg.peers@, cfg.node_id)[i];
    assert(keep(peer));
    assert(fusion_source_views(cfg)[i] == peer_fusion_source(peer));
    if fusion_source_views(cfg)[i].offset_key == peer_series(cfg.node_id, "offset"@) {
        crate::store::keys::law_keys_are_distinct(
            "ts:peer:"@,
            peer.id,
            "offset"@,
            cfg.node_id,
            "offset"@,
        );
    }
}

/// A source's summary lands in the record that is reported for it: a peer's with the peers, that
/// of an NTP server with the NTP servers, unless a peer has the same identifier.
pub proof fn law_summaries_land_with_their_source(cfg: Config, id: u32)
    ensures
        is_peer(cfg.peers@, id) ==> summary_key(cfg, id) == peer_hash(id, "summary"@),
        is_ntp_source(cfg.ntp_sources@, id) && !is_peer(cfg.peers@, id) ==> summary_key(cfg, id)
            == ntp_hash(id, "summary"@),
{
}

/// A round moves the average: where it holds a value, the blend becomes its value, the smoothed
/// offset of the round and the point of the series `ts:fused:ewma`; only where it holds none does
/// the mean offset.
pub proof fn law_rounds_move_the_average(
    cfg: Config,
    window_ns: u64,
    before: FusionState,
    samples: Vec<PeerSample>,
    event: RoundEvent,
    after: FusionState,
    action: RoundAction,
)
    requires
        event is Fused,
        event->Fused_fused.kept@.len() > 0,
        is_round_step(
            cfg,
            window_ns,
            before,
            RoundPhase::Fusing(samples),
            event,
            after,
            action,
        ),
    ensures
        ({
            let smoothed = if before.ewma.state_spec() is Some {
                event->blended
            } else {
                event->Fused_fused.mean_offset_ns
            };
            &&& after.ewma.state_spec() == Some(smoothed)
            &&& after.ewma.lambda_spec() == before.ewma.lambda_spec()
            &&& action.phase matches RoundPhase::Estimating(round) ==> round.smoothed == smoothed
            &&& action.phase matches RoundPhase::Comparing(round) ==> round.smoothed == smoothed
            &&& op_views(action.ops@).len() == 3
            &&& op_views(action.ops@)[0] == (StoreOpView::TsAdd {
                key: "ts:fused:offset"@,
                ts_ns: event->Fused_ts_ns,
                val: event->Fused_fused.mean_offset_ns,
                window_ns,
            })
            &&& op_views(action.ops@)[1] == (StoreOpView::TsAdd {
                key: "ts:fused:delay"@,
                ts_ns: event->Fused_ts_ns,
                val: event->Fused_fused.mean_delay_ns,
                window_ns,
            })
            &&& op_views(action.ops@)[2] == (StoreOpView::TsAdd {
                key: "ts:fused:ewma"@,
                ts_ns: event->Fused_ts_ns,
                val: smoothed,
                window_ns,
            })
        }),
{
}

/// A round goes on with the samples, scores, fused result and time that it was given. The history
/// gains the round's time and offset at its end and loses nothing but the oldest entries beyond
/// 512; from three entries on the drift is estimated, before that it is not.
pub proof fn law_rounds_are_remembered(
    cfg: Config,
    window_ns: u64,
    before: FusionState,
    samples: Vec<PeerSample>,
    event: RoundEvent,
    after: FusionState,
    action: RoundAction,
)
    requires
        event is Fused,
        event->Fused_fused.kept@.len() > 0,
        before.ring.points@.len() <= 512,
        is_round_step(
            cfg,
            window_ns,
            before,
            RoundPhase::Fusing(samples),
            event,
            after,
            action,
        ),
    ensures
        ({
            let (old_points, new_points) = (before.ring.points@, after.ring.points@);
            let dropped = if old_points.len() == 512 {
                1int
            } else {
                0
            };
            &&& new_points.len() == old_points.len() + 1 - dropped
            &&& new_points.last() == (event->Fused_ts_ns, event->whole_ns)
            &&& forall|i: int|
                0 <= i < new_points.len() - 1 ==> #[trigger] new_points[i] == old_points[i + dropped]
            &&& new_points.len() >= 3 ==> action.phase is Estimating
            &&& new_points.len() < 3 ==> action.phase is Comparing
        }),
        ({
            let round = if action.phase is Estimating {
                action.phase->Estimating_0
            } else {
                action.phase->Comparing_0
            };
            &&& round.samples == samples
            &&& round.scores == event->scores
            &&& round.fused == event->Fused_fused
            &&& round.ts_ns == event->Fused_ts_ns
        }),
        !action.correct_clock,
{
}

/// A drift estimate is recorded under the time of its round, and the round goes on unchanged.
pub proof fn law_drift_is_recorded_with_its_round(
    cfg: Config,
    window_ns: u64,
    before: FusionState,
    round: FusedRound,
    drift_ppm: Binary64,
    after: FusionState,
    action: RoundAction,
)
    requires
        is_round_step(
            cfg,
            window_ns,
            before,
            RoundPhase::Estimating(round),
            RoundEvent::Drift(drift_ppm),
            after,
            action,
        ),
    ensures
        after == before,
        action.phase == RoundPhase::Comparing(round),
        op_views(action.ops@) == seq![
            StoreOpView::TsAdd {
                key: "ts:fused:drift_ppm"@,
                ts_ns: round.ts_ns,
                val: drift_ppm,
                window_ns,
            },
        ],
        action.correct_clock <==> cfg.mode.control_enable && !cfg.mode.observer_only,
{
}

/// The last step of a round records the PHC where there is one, then one summary for every sample
/// with its own medians and score, then the fused result, and last what the node keeps of itself
/// where it is among its own peers.
pub proof fn law_rounds_close_with_summaries(
    cfg: Config,
    window_ns: u64,
    before: FusionState,
    round: FusedRound,
    event: RoundEvent,
    after: FusionState,
    action: RoundAction,
    i: int,
)
    requires
        event is NoPhc || event is PhcOffset,
        is_round_step(
            cfg,
            window_ns,
            before,
            RoundPhase::Comparing(round),
            event,
            after,
            action,
        ),
        0 <= i < round.samples@.len(),
    ensures
        ({
            let ops = op_views(action.ops@);
            let first = if event is PhcOffset {
                2int
            } else {
                0
            };
            let last = first + round.samples@.len();
            let own = is_peer(cfg.peers@, cfg.node_id);
            let sample = round.samples@[i];
            &&& after == before
            &&& action.phase is Over
            &&& ops.len() == last + (if own {
                2int
            } else {
                1
            })
            &&& event matches RoundEvent::PhcOffset { offset, delta } ==> {
                &&& ops[0] == (StoreOpView::TsAdd {
                    key: "ts:phc:system_offset"@,
                    ts_ns: round.ts_ns,
                    val: offset,
                    window_ns,
                })
                &&& ops[1] == (StoreOpView::TsAdd {
                    key: "ts:phc:fused_delta"@,
                    ts_ns: round.ts_ns,
                    val: delta,
                    window_ns,
                })
            }
            &&& ops[first + i] == (StoreOpView::HmSet {
                key: summary_key(cfg, sample.peer_id),
                fields: seq![
                    ("offset_ns"@, sample.offset_median_ns),
                    ("delay_ns"@, sample.delay_median_ns),
                    ("jitter_ns"@, sample.jitter_median_ns),
                    ("score"@, round.scores@[i]),
                ],
            })
            &&& ops[last] == (StoreOpView::HmSet {
                key: "hash:fused:summary"@,
                fields: seq![
                    ("smoothed_offset_ns"@, round.smoothed),
                    ("raw_offset_ns"@, round.fused.mean_offset_ns),
                    ("mean_delay_ns"@, round.fused.mean_delay_ns),
                    ("weight_sum"@, round.fused.total_weight),
                ],
            })
            &&& own ==> ops[last + 1] == (StoreOpView::HmSet {
                key: peer_hash(cfg.node_id, "self"@),
                fields: seq![("last_ewma_ns"@, round.smoothed)],
            })
        }),
{
}

/// Samples that were read move a round on to their fusion as they are.
pub proof fn law_read_samples_are_fused(
    cfg: Config,
    window_ns: u64,
    before: FusionState,
    samples: Vec<PeerSample>,
    after: FusionState,
    action: RoundAction,
)
    requires
        samples@.len() > 0,
        is_round_step(
            cfg,
            window_ns,
            before,
            RoundPhase::Reading,
            RoundEvent::SamplesRead(samples),
            after,
            action,
        ),
    ensures
        after == before,
        action.phase == RoundPhase::Fusing(samples),
        action.ops@.len() == 0,
{
    assert(op_views(action.ops@).len() == action.ops@.len());
}

/// Every other peer and every NTP server takes part in the fusion with its own three series, peers
/// first; with its configured weight, or else a peer with one and a server with a fifth.
pub proof fn law_sources_are_fused_with_their_series(cfg: Config, k: int, n: int)
    requires
        0 <= k < other_peers(cfg.peers@, cfg.node_id).len(),
        0 <= n < cfg.ntp_sources@.len(),
    ensures
        ({
            let sources = fusion_source_views(cfg);
            let others = other_peers(cfg.peers@, cfg.node_id);
            let (peer, server) = (others[k], cfg.ntp_sources@[n]);
            let (a, b) = (sources[k], sources[others.len() + n]);
            &&& sources.len() == others.len() + cfg.ntp_sources@.len()
            &&& a.id == peer.id
            &&& a.offset_key == peer_series(peer.id, "offset"@)
            &&& a.delay_key == peer_series(peer.id, "delay"@)
            &&& a.jitter_key == peer_series(peer.id, "jitter"@)
            &&& peer.weight is Some ==> Some(a.weight) == peer.weight
            &&& peer.weight is None ==> a.weight.bits == 0x3ff0_0000_0000_0000
            &&& b.id == server.id
            &&& b.offset_key == ntp_series(server.id, "offset"@)
            &&& b.delay_key == ntp_series(server.id, "delay"@)
            &&& b.jitter_key == ntp_series(server.id, "jitter"@)
            &&& server.weight is Some ==> Some(b.weight) == server.weight
            &&& server.weight is None ==> b.weight.bits == 0x3fc9_9999_9999_999a
        }),
{
}

/// A failure ends a round wherever it comes: nothing is recorded, the clock is left alone and what
/// was taken in before stays.
pub proof fn law_failures_end_the_round(
    cfg: Config,
    window_ns: u64,
    before: FusionState,
    phase: RoundPhase,
    event: RoundEvent,
    after: FusionState,
    action: RoundAction,
)
    requires
        event is ReadFailed || event is PhcFailed,
        is_round_step(cfg, window_ns, before, phase, event, after, action),
    ensures
        after == before,
        action.phase is Over,
        action.ops@.len() == 0,
        !action.correct_clock,
{
    assert(op_views(action.ops@).len() == action.ops@.len());
}

/// A peer is known by its identifier exactly where some entry of the configuration has it, and so
/// is an NTP server; the other peers are those with another identifier than the node's.
pub proof fn law_sources_are_known_by_their_ids(
    peers: Seq<PeerEntry>,
    sources: Seq<NtpSource>,
    id: u32,
    k: int,
)
    ensures
        0 <= k < peers.len() ==> is_peer(peers, peers[k].id),
        (forall|i: int| 0 <= i < peers.len() ==> (#[trigger] peers[i]).id != id) ==> !is_peer(
            peers,
            id,
        ),
        0 <= k < sources.len() ==> is_ntp_source(sources, sources[k].id),
        (forall|i: int| 0 <= i < sources.len() ==> (#[trigger] sources[i]).id != id)
            ==> !is_ntp_source(sources, id),
        other_peers(peers, id) == peers.filter(|p: PeerEntry| p.id != id),
{
}

/// A list of sources is seen whole, source by source.
pub proof fn law_fusion_sources_are_seen_whole(sources: Seq<FusionSource>, i: int)
    ensures
        fusion_views(sources).len() == sources.len(),
        0 <= i < sources.len() ==> fusion_views(sources)[i] == sources[i]@,
{
}

/// Without a peer of its identifier, a summary of an NTP server goes to the servers, and any other
/// to the peers.
pub proof fn law_unknown_summaries_go_to_the_peers(cfg: Config, id: u32)
    ensures
        !is_ntp_source(cfg.ntp_sources@, id) ==> summary_key(cfg, id) == peer_hash(id, "summary"@),
        is_peer(cfg.peers@, id) ==> summary_key(cfg, id) == peer_hash(id, "summary"@),
        is_ntp_source(cfg.ntp_sources@, id) && !is_peer(cfg.peers@, id) ==> summary_key(cfg, id)
            == ntp_hash(id, "summary"@),
{
}

} // verus!
