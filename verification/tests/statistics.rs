use zeitpeer::binary64::Binary64;
use zeitpeer::config::{
    default_ntp_sources, ensure_defaults, Config, FilterCfg, ModeCfg, NtpSource, PeerEntry,
    SamplingCfg,
};
use zeitpeer::net::fusion::{
    drift_step, fusion_enabled, fusion_sources, phc_ops, sample_limit, summary_ops, takes_part,
    window_start, FusedRound, FusionState, RoundEvent, RoundPhase,
};
use zeitpeer::ranking::{arrange, stable_order};
use zeitpeer::store::keys::StoreOp;
use zeitpeer::time::drift::FusedRing;
use zeitpeer::time::fuse::{
    robust_median, select_and_trim, select_best_peers, selected_count, series_medians, values_of, EwmaStep, FusedSums, Median,
    PeerSample, TrimmedStats, WeightedEwma,
};
use zeitpeer::time::slew::{correction, Correction};

fn num(x: f64) -> Binary64 {
    Binary64 { bits: x.to_bits() }
}

fn nums(xs: &[f64]) -> Vec<Binary64> {
    xs.iter().map(|x| num(*x)).collect()
}

fn series(xs: &[f64]) -> Vec<(u64, Binary64)> {
    xs.iter().enumerate().map(|(i, x)| (i as u64, num(*x))).collect()
}

fn sample(peer_id: u32, offset: f64) -> PeerSample {
    PeerSample {
        peer_id,
        peer_weight: num(1.0),
        offset_median_ns: num(offset),
        delay_median_ns: num(10.0),
        jitter_median_ns: num(1.0),
    }
}

fn ids(samples: &[PeerSample]) -> Vec<u32> {
    samples.iter().map(|s| s.peer_id).collect()
}

fn peer(id: u32, weight: Option<f64>) -> PeerEntry {
    PeerEntry { id, ip: String::from("10.0.0.1"), port: 7000, weight: weight.map(num) }
}

fn ntp(id: u32, weight: Option<f64>) -> NtpSource {
    NtpSource {
        id,
        host: String::from("ntp.example"),
        port: None,
        weight: weight.map(num),
        poll_interval_ms: None,
        timeout_ms: None,
        alias: None,
    }
}

fn config(node_id: u32, peers: Vec<PeerEntry>, ntp_sources: Vec<NtpSource>) -> Config {
    Config {
        node_id,
        listen_addr: String::new(),
        redis_url: String::new(),
        phc_device: None,
        telemetry_addr: String::new(),
        sampling: SamplingCfg { interval_ms: 100, window_sec: 30, burst: None },
        filter: FilterCfg {
            lambda: num(0.2),
            trim_ratio: num(0.1),
            best_quantile: num(0.5),
            min_samples_per_peer: 3,
        },
        peers,
        mode: ModeCfg::default(),
        tags: std::collections::HashMap::new(),
        ntp_sources,
    }
}

fn points(ops: &[StoreOp]) -> Vec<(String, u64, f64, u64)> {
    ops.iter()
        .map(|op| match op {
            StoreOp::TsAdd { key, ts_ns, val, window_ns } => {
                (key.clone(), *ts_ns, f64::from_bits(val.bits), *window_ns)
            }
            StoreOp::HmSet { .. } => panic!("not a point"),
        })
        .collect()
}

fn record(op: &StoreOp) -> (String, Vec<(String, f64)>) {
    match op {
        StoreOp::HmSet { key, fields } => (
            key.clone(),
            fields.iter().map(|(f, v)| (f.to_string(), f64::from_bits(v.bits))).collect(),
        ),
        StoreOp::TsAdd { .. } => panic!("not a record"),
    }
}

#[test]
fn values_are_ordered_as_floating_point_numbers() {
    let xs = [
        f64::NEG_INFINITY,
        -1.5e300,
        -1.0,
        -5e-324,
        -0.0,
        0.0,
        5e-324,
        0.1,
        1.0,
        1.0000000000000002,
        f64::INFINITY,
        f64::NAN,
        -f64::NAN,
    ];
    for a in xs {
        for b in xs {
            assert_eq!(num(a).below(&num(b)), a < b, "{} {}", a, b);
        }
        assert_eq!(num(a).is_nan(), a.is_nan());
        assert_eq!(num(a).abs().bits, a.abs().to_bits());
        assert_eq!(num(a).at_least(num(0.5)).bits, a.max(0.5).to_bits());
        assert_eq!(num(a).clamp(num(-0.5), num(0.5)).bits, a.clamp(-0.5, 0.5).to_bits());
    }
}

#[test]
fn ranking_is_stable() {
    let keys = nums(&[3.0, -1.0, 3.0, -0.0, 0.0]);
    let order = stable_order(&keys);
    assert_eq!(order, vec![1, 3, 4, 0, 2]);
    assert_eq!(arrange(&vec![10u32, 11, 12, 13, 14], &order), vec![11, 13, 14, 10, 12]);
    assert_eq!(stable_order(&Vec::new()), Vec::<usize>::new());
}

#[test]
fn ranking_without_numbers_is_a_permutation() {
    let mut order = stable_order(&nums(&[1.0, f64::NAN, 0.5, f64::NAN]));
    order.sort();
    assert_eq!(order, vec![0, 1, 2, 3]);
}

#[test]
fn median_is_the_middle() {
    assert_eq!(robust_median(&Vec::new()), None);
    assert_eq!(robust_median(&nums(&[7.0])), Some(Median::One(num(7.0))));
    assert_eq!(
        robust_median(&nums(&[9.0, -3.0])),
        Some(Median::Between(num(-3.0), num(9.0)))
    );
    assert_eq!(robust_median(&nums(&[9.0, -3.0, 2.0])), Some(Median::One(num(2.0))));
}

#[test]
fn median_resists_outliers() {
    let values = nums(&[1e18, 10.0, 11.0, -1e18, 12.0]);
    assert_eq!(robust_median(&values), Some(Median::One(num(11.0))));
}

#[test]
fn medians_are_taken_per_series() {
    assert_eq!(values_of(&series(&[4.0, 2.0])), nums(&[4.0, 2.0]));
    let medians = series_medians(&series(&[5.0, 1.0, 3.0]), &series(&[8.0, 6.0]), &Vec::new());
    assert_eq!(medians.offset, Some(Median::One(num(3.0))));
    assert_eq!(medians.delay, Some(Median::Between(num(6.0), num(8.0))));
    assert_eq!(medians.jitter, None);
}

#[test]
fn sample_limits_weight_and_jitter() {
    let s = PeerSample::from_series(4, num(0.0), Some(num(-2.0)), None, Some(num(-3.0)));
    assert_eq!(s.peer_id, 4);
    assert_eq!(s.peer_weight, num(0.01));
    assert_eq!(s.offset_median_ns, num(-2.0));
    assert_eq!(s.delay_median_ns, num(0.0));
    assert_eq!(s.jitter_median_ns, num(3.0));
    let heavy = PeerSample::from_series(4, num(2.5), None, None, None);
    assert_eq!(heavy.peer_weight, num(2.5));
    assert_eq!(heavy.jitter_median_ns, num(0.0));
    assert_eq!(
        PeerSample::from_series(4, num(f64::NAN), None, None, None).peer_weight,
        num(0.01)
    );
}

#[test]
fn selection_keeps_the_best() {
    let samples = vec![sample(1, 0.0), sample(2, 0.0), sample(3, 0.0)];
    let scores = nums(&[30.0, 10.0, 20.0]);
    assert_eq!(ids(&select_best_peers(&samples, &scores, 2)), vec![2, 3]);
    assert_eq!(ids(&select_best_peers(&samples, &scores, 0)), vec![2]);
    assert_eq!(ids(&select_best_peers(&samples, &scores, 9)), vec![2, 3, 1]);
    assert_eq!(select_best_peers(&Vec::new(), &Vec::new(), 1), vec![]);
}

#[test]
fn trimming_drops_outliers() {
    let samples = vec![sample(1, 5.0), sample(2, -900.0), sample(3, 700.0), sample(4, 4.0)];
    assert_eq!(ids(&TrimmedStats::trim_samples(&samples, 1)), vec![4, 1]);
    assert_eq!(ids(&TrimmedStats::trim_samples(&samples, 0)), vec![2, 4, 1, 3]);
}

#[test]
fn trimming_keeps_one() {
    let samples = vec![sample(1, 5.0), sample(2, 3.0), sample(3, 4.0)];
    assert_eq!(ids(&TrimmedStats::trim_samples(&samples, 2)), vec![1]);
    let pair = vec![sample(1, 5.0), sample(2, 3.0)];
    assert_eq!(ids(&TrimmedStats::trim_samples(&pair, 1)), vec![1]);
}

fn sums(total: f64) -> FusedSums {
    FusedSums {
        total_weight: num(total),
        weighted_offset_ns: num(1.0),
        weighted_delay_ns: num(2.0),
        plain_offset_ns: num(3.0),
        plain_delay_ns: num(4.0),
    }
}

#[test]
fn means_are_weighted_for_a_positive_weight() {
    let stats = TrimmedStats::from_samples(vec![sample(1, 5.0)], &sums(0.5));
    assert_eq!(stats.mean_offset_ns, num(1.0));
    assert_eq!(stats.mean_delay_ns, num(2.0));
    assert_eq!(stats.total_weight, num(0.5));
    assert!(!stats.is_empty());
    assert_eq!(stats.weighted_mean().mean_offset_ns, num(1.0));
    let plain = TrimmedStats::from_samples(Vec::new(), &sums(0.0));
    assert_eq!(plain.mean_offset_ns, num(3.0));
    assert_eq!(plain.mean_delay_ns, num(4.0));
    assert_eq!(plain.total_weight, num(f64::EPSILON));
    assert!(plain.is_empty());
    let broken = TrimmedStats::from_samples(Vec::new(), &sums(f64::NAN));
    assert_eq!(broken.mean_offset_ns, num(3.0));
    assert_eq!(broken.total_weight, num(f64::EPSILON));
}

#[test]
fn average_is_seeded_by_its_first_value() {
    let mut ewma = WeightedEwma::new(num(1.7));
    assert_eq!(ewma.next_step(), EwmaStep::Seed);
    assert_eq!(ewma.push(num(8.0), num(99.0)), num(8.0));
    assert_eq!(
        ewma.next_step(),
        EwmaStep::Blend { lambda: num(1.0), state: num(8.0) }
    );
    assert_eq!(ewma.push(num(8.0), num(9.5)), num(9.5));
    assert_eq!(WeightedEwma::default().next_step(), EwmaStep::Seed);
}

#[test]
fn ring_holds_the_most_recent() {
    let mut ring = FusedRing::new();
    assert!(!ring.drift_ready());
    ring.push(0, 0);
    ring.push(1, -1);
    assert!(!ring.drift_ready());
    for i in 2..600u64 {
        ring.push(i, -(i as i64));
    }
    assert!(ring.drift_ready());
    assert_eq!(ring.points.len(), 512);
    assert_eq!(ring.points[0], (88, -88));
    assert_eq!(ring.points[511], (599, -599));
}

#[test]
fn correction_is_bounded() {
    assert_eq!(
        correction(-1_000_000, 600_000),
        Correction { offset_us: -500_000, freq: 512_000 }
    );
    assert_eq!(correction(17, -512_000), Correction { offset_us: 17, freq: -512_000 });
    assert_eq!(
        correction(i64::MAX, i64::MIN),
        Correction { offset_us: 500_000, freq: -512_000 }
    );
}

#[test]
fn fusion_state_smooths_and_remembers() {
    let mut state = FusionState::new(num(-3.0));
    let fused = TrimmedStats::from_samples(vec![sample(1, 5.0)], &sums(0.5));
    let first = state.take_in(&fused, num(99.0), 1, 10, 60);
    assert_eq!(first.smoothed, num(1.0));
    assert!(!first.wants_drift);
    assert_eq!(
        points(&first.ops),
        vec![
            (String::from("ts:fused:offset"), 10, 1.0, 60),
            (String::from("ts:fused:delay"), 10, 2.0, 60),
            (String::from("ts:fused:ewma"), 10, 1.0, 60),
        ]
    );
    assert_eq!(
        state.ewma.next_step(),
        EwmaStep::Blend { lambda: num(0.0), state: num(1.0) }
    );
    assert_eq!(state.take_in(&fused, num(1.5), 2, 11, 60).smoothed, num(1.5));
    assert!(state.take_in(&fused, num(1.25), 3, 12, 60).wants_drift);
    assert_eq!(state.ring.points, vec![(10, 1), (11, 2), (12, 3)]);
}

#[test]
fn clock_is_corrected_only_with_leave() {
    let on = ModeCfg { observer_only: false, control_enable: true };
    let watching = ModeCfg { observer_only: true, control_enable: true };
    let step = drift_step(&on, num(-2.5), 9, 60);
    assert!(step.correct_clock);
    assert_eq!(points(&[step.op]), vec![(String::from("ts:fused:drift_ppm"), 9, -2.5, 60)]);
    assert!(!drift_step(&watching, num(0.0), 9, 60).correct_clock);
    assert!(!drift_step(&ModeCfg::default(), num(0.0), 9, 60).correct_clock);
}

#[test]
fn fusion_reads_other_peers_and_ntp_servers() {
    let cfg = config(
        2,
        vec![peer(1, Some(0.5)), peer(2, None), peer(3, None)],
        vec![ntp(2, None), ntp(9, Some(0.75))],
    );
    let found: Vec<(u32, f64, String, String, String)> = fusion_sources(&cfg)
        .into_iter()
        .map(|s| (s.id, f64::from_bits(s.weight.bits), s.offset_key, s.delay_key, s.jitter_key))
        .collect();
    let row = |id: u32, weight: f64, prefix: &str| {
        (
            id,
            weight,
            format!("ts:{}:{}:offset", prefix, id),
            format!("ts:{}:{}:delay", prefix, id),
            format!("ts:{}:{}:jitter", prefix, id),
        )
    };
    assert_eq!(
        found,
        vec![
            row(1, 0.5, "peer"),
            row(3, 1.0, "peer"),
            row(2, 0.2, "ntp"),
            row(9, 0.75, "ntp"),
        ]
    );
    assert!(fusion_enabled(&cfg));
    assert!(!fusion_enabled(&config(2, Vec::new(), vec![ntp(9, None)])));
}

#[test]
fn source_needs_enough_samples() {
    let mut cfg = config(1, Vec::new(), Vec::new());
    assert_eq!(sample_limit(&cfg), 3);
    cfg.filter.min_samples_per_peer = 0;
    assert_eq!(sample_limit(&cfg), 1);
    assert!(takes_part(3, 3));
    assert!(!takes_part(2, 3));
    assert_eq!(window_start(100, 30), 70);
    assert_eq!(window_start(20, 30), 0);
}

#[test]
fn phc_is_compared_with_the_fused_offset() {
    assert_eq!(
        points(&phc_ops(num(4.0), num(-1.0), 7, 60)),
        vec![
            (String::from("ts:phc:system_offset"), 7, 4.0, 60),
            (String::from("ts:phc:fused_delta"), 7, -1.0, 60),
        ]
    );
}

#[test]
fn summaries_land_with_their_source() {
    let cfg = config(2, vec![peer(1, None), peer(2, None)], vec![ntp(1, None), ntp(9, None)]);
    let samples = vec![sample(1, 5.0), sample(9, 6.0), sample(77, 7.0)];
    let fused = TrimmedStats::from_samples(samples.clone(), &sums(0.5));
    let ops = summary_ops(&cfg, &samples, &nums(&[1.0, 2.0, 3.0]), &fused, num(8.0));
    let summary = |offset: f64, score: f64| {
        vec![
            (String::from("offset_ns"), offset),
            (String::from("delay_ns"), 10.0),
            (String::from("jitter_ns"), 1.0),
            (String::from("score"), score),
        ]
    };
    let records: Vec<(String, Vec<(String, f64)>)> = ops.iter().map(record).collect();
    assert_eq!(
        records,
        vec![
            (String::from("hash:peer:1:summary"), summary(5.0, 1.0)),
            (String::from("hash:ntp:9:summary"), summary(6.0, 2.0)),
            (String::from("hash:peer:77:summary"), summary(7.0, 3.0)),
            (
                String::from("hash:fused:summary"),
                vec![
                    (String::from("smoothed_offset_ns"), 8.0),
                    (String::from("raw_offset_ns"), 1.0),
                    (String::from("mean_delay_ns"), 2.0),
                    (String::from("weight_sum"), 0.5),
                ]
            ),
            (
                String::from("hash:peer:2:self"),
                vec![(String::from("last_ewma_ns"), 8.0)]
            ),
        ]
    );
    let outsider = config(5, vec![peer(1, None)], Vec::new());
    assert_eq!(summary_ops(&outsider, &Vec::new(), &Vec::new(), &fused, num(8.0)).len(), 1);
}

#[test]
fn default_servers_are_distinct() {
    let sources = default_ntp_sources();
    assert_eq!(sources.len(), 10);
    for (i, s) in sources.iter().enumerate() {
        assert_eq!(s.id, 9101 + i as u32);
        assert_eq!(s.port, None);
    }
    let weights: Vec<f64> = sources.iter().map(|s| f64::from_bits(s.weight.unwrap().bits)).collect();
    assert_eq!(weights, vec![0.15, 0.1, 0.1, 0.1, 0.1, 0.08, 0.08, 0.08, 0.08, 0.12]);
    let first = &sources[0];
    assert_eq!(first.host, "time.google.com");
    assert_eq!(first.poll_interval_ms, Some(2_000));
    assert_eq!(first.timeout_ms, Some(1_200));
    assert_eq!(first.alias.as_deref(), Some("google"));
    let last = &sources[9];
    assert_eq!(last.host, "time1.google.com");
    assert_eq!(last.poll_interval_ms, Some(2_200));
    assert_eq!(last.alias.as_deref(), Some("google-1"));
}

#[test]
fn defaults_apply_only_without_any_source() {
    let mut bare = config(1, Vec::new(), Vec::new());
    ensure_defaults(&mut bare);
    assert_eq!(bare.ntp_sources.len(), 10);
    ensure_defaults(&mut bare);
    assert_eq!(bare.ntp_sources.len(), 10);
    let mut with_ntp = config(1, Vec::new(), vec![ntp(4, None)]);
    ensure_defaults(&mut with_ntp);
    assert_eq!(with_ntp.ntp_sources.len(), 1);
    let mut with_phc = config(1, Vec::new(), Vec::new());
    with_phc.phc_device = Some(String::from("/dev/ptp0"));
    ensure_defaults(&mut with_phc);
    assert!(with_phc.ntp_sources.is_empty());
}

#[test]
fn window_is_counted_in_nanoseconds() {
    let s = SamplingCfg { interval_ms: 1, window_sec: 30, burst: None };
    assert_eq!(s.window_ns(), 30_000_000_000);
    assert_eq!(s.nonzero_window_ns(), 30_000_000_000);
    let none = SamplingCfg { interval_ms: 1, window_sec: 0, burst: None };
    assert_eq!(none.window_ns(), 0);
    assert_eq!(none.nonzero_window_ns(), 1_000_000_000);
}

#[test]
fn selection_comes_before_trimming() {
    let samples = vec![sample(1, 9.0), sample(2, -900.0), sample(3, 5.0), sample(4, 7.0)];
    let scores = nums(&[1.0, 99.0, 2.0, 3.0]);
    assert_eq!(selected_count(4, 3), 3);
    assert_eq!(selected_count(4, 0), 1);
    assert_eq!(selected_count(4, 9), 4);
    assert_eq!(selected_count(0, 9), 0);
    assert_eq!(ids(&select_and_trim(&samples, &scores, 3, 1)), vec![4]);
    assert_eq!(ids(&select_and_trim(&samples, &scores, 9, 1)), vec![3, 4]);
}

fn fused_event(ts_ns: u64) -> RoundEvent {
    RoundEvent::Fused {
        scores: nums(&[11.0]),
        fused: TrimmedStats::from_samples(vec![sample(1, 5.0)], &sums(0.5)),
        blended: num(1.5),
        whole_ns: 1,
        ts_ns,
    }
}

#[test]
fn round_without_samples_leaves_no_trace() {
    let cfg = config(2, vec![peer(1, None)], Vec::new());
    let mut state = FusionState::new(num(0.2));
    for event in [RoundEvent::ReadFailed, RoundEvent::SamplesRead(Vec::new())] {
        let action = state.step(&cfg, 60, RoundPhase::Reading, event);
        assert!(matches!(action.phase, RoundPhase::Over));
        assert!(action.ops.is_empty() && !action.correct_clock);
    }
    assert_eq!(state.ewma.next_step(), EwmaStep::Seed);
    assert!(state.ring.points.is_empty());
    let stray = state.step(&cfg, 60, RoundPhase::Reading, fused_event(1));
    assert!(matches!(stray.phase, RoundPhase::Over) && stray.ops.is_empty());
}

#[test]
fn round_goes_through_its_phases() {
    let mut cfg = config(2, vec![peer(1, None), peer(2, None)], Vec::new());
    cfg.mode = ModeCfg { observer_only: false, control_enable: true };
    let mut state = FusionState::new(num(0.2));
    state.ring.push(1, 0);
    state.ring.push(2, 0);
    let read = state.step(&cfg, 60, RoundPhase::Reading, RoundEvent::SamplesRead(vec![sample(1, 5.0)]));
    assert!(read.ops.is_empty());
    let fused = state.step(&cfg, 60, read.phase, fused_event(3));
    assert_eq!(points(&fused.ops)[2], (String::from("ts:fused:ewma"), 3, 1.0, 60));
    assert_eq!(state.ring.points, vec![(1, 0), (2, 0), (3, 1)]);
    assert!(!fused.correct_clock);
    assert!(matches!(fused.phase, RoundPhase::Estimating(_)));
    let drift = state.step(&cfg, 60, fused.phase, RoundEvent::Drift(num(0.25)));
    assert_eq!(points(&drift.ops), vec![(String::from("ts:fused:drift_ppm"), 3, 0.25, 60)]);
    assert!(drift.correct_clock);
    let phc = RoundEvent::PhcOffset { offset: num(4.0), delta: num(-3.0) };
    let last = state.step(&cfg, 60, drift.phase, phc);
    assert!(matches!(last.phase, RoundPhase::Over));
    assert_eq!(
        points(&last.ops[..2]),
        vec![
            (String::from("ts:phc:system_offset"), 3, 4.0, 60),
            (String::from("ts:phc:fused_delta"), 3, -3.0, 60),
        ]
    );
    let keys: Vec<String> = last.ops[2..].iter().map(|op| record(op).0).collect();
    assert_eq!(keys, vec!["hash:peer:1:summary", "hash:fused:summary", "hash:peer:2:self"]);
}

#[test]
fn unreadable_phc_ends_the_round() {
    let cfg = config(2, vec![peer(1, None)], Vec::new());
    let mut state = FusionState::new(num(0.2));
    let fused = state.step(&cfg, 60, RoundPhase::Fusing(vec![sample(1, 5.0)]), fused_event(3));
    assert_eq!(fused.ops.len(), 3);
    let round: FusedRound = match fused.phase {
        RoundPhase::Comparing(round) => round,
        _ => panic!("too few points for a drift estimate"),
    };
    let failed = state.step(&cfg, 60, RoundPhase::Comparing(round.clone()), RoundEvent::PhcFailed);
    assert!(failed.ops.is_empty() && matches!(failed.phase, RoundPhase::Over));
    assert_eq!(state.ring.points, vec![(3, 1)]);
    let without = state.step(&cfg, 60, RoundPhase::Comparing(round), RoundEvent::NoPhc);
    assert_eq!(without.ops.len(), 2);
}
