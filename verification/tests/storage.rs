use zeitpeer::binary64::Binary64;
use zeitpeer::config::{Config, FilterCfg, ModeCfg, NtpSource, PeerEntry, SamplingCfg};
use zeitpeer::net::ping::{ping_args, read_line_time, read_times};
use zeitpeer::net::poller::{
    mean_distance_op, other_source_ids, ping_op, poll_ops, poll_summary_op, poller_settings,
    remote_clock_ops, DriftBase, PollExtras, PollState, PollValues, PolledPoint, PolledSample,
};
use zeitpeer::store::keys::{
    ntp_hash_key, ntp_series_key, peer_hash_key, peer_series_key, StoreOp,
};
use zeitpeer::store::redis::{
    parse_member_value, read_last, read_recent, Arg, Command, RedisStore,
};
use zeitpeer::telemetry::metrics::{
    add_quantile_series, append_ntp_metrics, append_peer_metrics, health, health_key,
    lookback_start, metrics, primary_keys,
    ntp_summary_key, peer_summary_key, peer_timeouts_key, percentile, sorted_values, stored_number,
    system_time_ns, write_peer_metrics, write_primary_metrics, Health, PeerReport, Percentile,
    PrimarySeries, SeriesText, StoreUnavailable,
};
use zeitpeer::text::{same_text, second_field_of, to_decimal};

fn num(x: f64) -> Binary64 {
    Binary64 { bits: x.to_bits() }
}

fn source(id: u32, host: &str, alias: Option<&str>) -> NtpSource {
    NtpSource {
        id,
        host: String::from(host),
        port: None,
        weight: None,
        poll_interval_ms: None,
        timeout_ms: None,
        alias: alias.map(String::from),
    }
}

fn config(peers: Vec<u32>, ntp_sources: Vec<NtpSource>) -> Config {
    Config {
        node_id: 42,
        listen_addr: String::new(),
        redis_url: String::new(),
        phc_device: None,
        telemetry_addr: String::new(),
        sampling: SamplingCfg { interval_ms: 100, window_sec: 30, burst: None },
        filter: FilterCfg {
            lambda: num(0.2),
            trim_ratio: num(0.1),
            best_quantile: num(0.5),
            min_samples_per_peer: 3,
        },
        peers: peers
            .into_iter()
            .map(|id| PeerEntry { id, ip: String::new(), port: 1, weight: None })
            .collect(),
        mode: ModeCfg::default(),
        tags: std::collections::HashMap::new(),
        ntp_sources,
    }
}

fn words(command: &Command) -> Vec<String> {
    let mut out = vec![command.name.to_string()];
    for arg in &command.args {
        out.push(match arg {
            Arg::Text(s) => s.clone(),
            Arg::Score(x) => format!("score {}", x),
            Arg::Count(n) => format!("count {}", n),
        });
    }
    out
}

fn fields(pairs: &[(&str, &str)]) -> Vec<(String, Option<String>)> {
    pairs
        .iter()
        .map(|(k, v)| (k.to_string(), v.parse::<f64>().ok().map(|x| x.to_string())))
        .collect()
}

fn point(op: &StoreOp) -> (String, u64, f64, u64) {
    match op {
        StoreOp::TsAdd { key, ts_ns, val, window_ns } => {
            (key.clone(), *ts_ns, f64::from_bits(val.bits), *window_ns)
        }
        StoreOp::HmSet { .. } => panic!("not a point"),
    }
}

#[test]
fn numbers_are_written_in_decimal() {
    assert_eq!(to_decimal(0), "0");
    assert_eq!(to_decimal(10), "10");
    assert_eq!(to_decimal(u64::MAX), u64::MAX.to_string());
}

#[test]
fn second_field_lies_between_separators() {
    assert_eq!(second_field_of("a:b:c", ':').as_deref(), Some("b"));
    assert_eq!(second_field_of("a:b", ':').as_deref(), Some("b"));
    assert_eq!(second_field_of("a:", ':').as_deref(), Some(""));
    assert_eq!(second_field_of("a", ':'), None);
    assert_eq!(second_field_of("", ':'), None);
    assert_eq!(second_field_of("ä:ö:ü", ':').as_deref(), Some("ö"));
}

#[test]
fn texts_are_compared_by_their_characters() {
    assert!(same_text("offset_ns", "offset_ns"));
    assert!(!same_text("offset_ns", "offset_n"));
    assert!(!same_text("offset_ns", "offset_nz"));
    assert!(same_text("", ""));
}

#[test]
fn keys_name_kind_source_and_field() {
    assert_eq!(peer_series_key(7, "offset"), "ts:peer:7:offset");
    assert_eq!(ntp_series_key(7, "offset"), "ts:ntp:7:offset");
    assert_eq!(peer_hash_key(7, "summary"), "hash:peer:7:summary");
    assert_eq!(ntp_hash_key(u32::MAX, "summary"), "hash:ntp:4294967295:summary");
    assert_ne!(peer_series_key(1, "1:x"), peer_series_key(11, "x"));
}

#[test]
fn point_is_inserted_and_the_series_trimmed() {
    let mut store = RedisStore::new();
    let commands = store.ts_add("k", 100, "-1.5", 30);
    assert_eq!(commands.len(), 2);
    assert_eq!(words(&commands[0]), vec!["ZADD", "k", "score 100", "100:-1.5:1"]);
    assert_eq!(words(&commands[1]), vec!["ZREMRANGEBYSCORE", "k", "-inf", "score 70"]);
    let untrimmed = store.ts_add("k", 100, "-1.5", 0);
    assert_eq!(untrimmed.len(), 1);
    assert_eq!(words(&untrimmed[0]), vec!["ZADD", "k", "score 100", "100:-1.5:2"]);
    let early = store.ts_add("k", 10, "0", 30);
    assert_eq!(words(&early[1])[3], "score 0");
    assert_eq!(store.next_sample, 4);
    let mut last = RedisStore { next_sample: u64::MAX };
    last.ts_add("k", 1, "1", 1);
    assert_eq!(last.next_sample, 0);
    assert_eq!(RedisStore::default().next_sample, 1);
}

#[test]
fn member_gives_back_its_value() {
    let mut store = RedisStore::new();
    for val in ["-1.5", "1e300", "NaN", ""] {
        let commands = store.ts_add("k", 100, val, 0);
        match &commands[0].args[2] {
            Arg::Text(member) => assert_eq!(parse_member_value(member).as_deref(), Some(val)),
            _ => panic!("member is text"),
        }
    }
    assert_eq!(parse_member_value("no colon"), None);
}

#[test]
fn queries_name_their_limits() {
    assert_eq!(
        words(&RedisStore::ts_recent("k", 5, 256)),
        vec!["ZREVRANGEBYSCORE", "k", "+inf", "score 5", "WITHSCORES", "LIMIT", "count 0", "count 256"]
    );
    assert_eq!(
        words(&RedisStore::ts_recent("k", 5, 0)),
        vec!["ZREVRANGEBYSCORE", "k", "+inf", "score 5", "WITHSCORES"]
    );
    assert_eq!(
        words(&RedisStore::ts_last("k")),
        vec!["ZREVRANGE", "k", "count 0", "count 0", "WITHSCORES"]
    );
    assert_eq!(words(&RedisStore::hm_get_all("k")), vec!["HGETALL", "k"]);
}

#[test]
fn record_is_set_field_by_field() {
    let values = vec![("a", String::from("1")), ("b", String::from("2.5"))];
    assert_eq!(
        words(&RedisStore::hm_set("k", &values).unwrap()),
        vec!["HSET", "k", "a", "1", "b", "2.5"]
    );
    assert!(RedisStore::hm_set("k", &Vec::new()).is_none());
}

#[test]
fn recent_points_ascend() {
    let entries = vec![(30, Some(num(3.0))), (20, None), (10, Some(num(1.0)))];
    assert_eq!(read_recent(&entries), vec![(10, num(1.0)), (30, num(3.0))]);
    assert_eq!(read_recent(&Vec::new()), vec![]);
    assert_eq!(read_last(&entries), Some((30, num(3.0))));
    assert_eq!(read_last(&vec![(20, None), (10, Some(num(1.0)))]), None);
    assert_eq!(read_last(&Vec::new()), None);
}

#[test]
fn ping_waits_within_its_budget() {
    assert_eq!(ping_args("host", 2_500, true), vec!["-c", "1", "-W", "2", "host"]);
    assert_eq!(ping_args("host", 999, true), vec!["-c", "1", "-W", "1", "host"]);
    assert_eq!(ping_args("host", 999, false), vec!["-c", "1", "host"]);
}

#[test]
fn time_is_read_from_ping_output() {
    let output = "PING a (1.2.3.4) 56(84) bytes of data.\n\
        64 bytes from 1.2.3.4: icmp_seq=1 ttl=58 time=12.3 ms\n\n\
        rtt min/avg/max/mdev = 12.3/12.3/12.3/0.000 ms\n";
    assert_eq!(read_times(output), vec!["12.3"]);
    assert_eq!(read_line_time("x time=7.5ms y").as_deref(), Some("7.5"));
    assert_eq!(read_line_time("x time=  4 ms").as_deref(), Some("4"));
    assert_eq!(read_line_time("x time=").as_deref(), Some(""));
    assert_eq!(read_line_time("x time =4"), None);
    assert_eq!(read_line_time("time=1 time=2").as_deref(), Some("1"));
    assert_eq!(read_times("time=x\ntime=2\r\n"), vec!["x", "2"]);
    assert_eq!(read_times(""), Vec::<String>::new());
}

#[test]
fn poller_has_defaults() {
    let s = poller_settings(&source(1, "h", None));
    assert_eq!((s.poll_ms, s.timeout_ms, s.port, s.weight), (2_000, 1_500, 123, num(0.2)));
    let mut custom = source(1, "h", None);
    custom.poll_interval_ms = Some(10);
    custom.timeout_ms = Some(0);
    custom.port = Some(11_123);
    custom.weight = Some(num(0.9));
    let c = poller_settings(&custom);
    assert_eq!((c.poll_ms, c.timeout_ms, c.port, c.weight), (250, 0, 11_123, num(0.9)));
}

#[test]
fn drift_compares_with_the_last_poll() {
    let mut state = PollState::new();
    assert_eq!(state.drift_base(100), None);
    assert_eq!(
        state.record(100, num(5.0), num(1.0), num(9.0), num(8.0)),
        (num(0.0), num(0.0))
    );
    assert_eq!(
        state.drift_base(130),
        Some(DriftBase { prev_offset: num(1.0), elapsed_ns: 30 })
    );
    assert_eq!(state.drift_base(100), None);
    assert_eq!(
        state.record(130, num(6.0), num(2.0), num(1.0), num(0.5)),
        (num(1.0), num(0.5))
    );
    assert_eq!(
        state.record(130, num(7.0), num(2.0), num(1.0), num(0.5)),
        (num(1.0), num(0.0))
    );
    assert_eq!(state.last_delay, Some(num(7.0)));
}

#[test]
fn poll_is_recorded() {
    let v = PollValues {
        offset: num(1.0),
        delay: num(2.0),
        jitter: num(3.0),
        stratum: num(4.0),
        drift_ppm: num(5.0),
    };
    let found: Vec<(String, u64, f64, u64)> = poll_ops(9, 77, &v, 60).iter().map(point).collect();
    assert_eq!(
        found,
        vec![
            (String::from("ts:ntp:9:offset"), 77, 1.0, 60),
            (String::from("ts:ntp:9:delay"), 77, 2.0, 60),
            (String::from("ts:ntp:9:jitter"), 77, 3.0, 60),
            (String::from("ts:ntp:9:quality"), 77, 4.0, 60),
            (String::from("ts:ntp:9:drift_ppm"), 77, 5.0, 60),
        ]
    );
    let clock: Vec<(String, u64, f64, u64)> =
        remote_clock_ops(9, 77, num(6.0), num(7.0), 60).iter().map(point).collect();
    assert_eq!(
        clock,
        vec![
            (String::from("ts:ntp:9:remote_time"), 77, 6.0, 60),
            (String::from("ts:ntp:9:system_delta"), 77, 7.0, 60),
        ]
    );
    assert_eq!(
        point(&mean_distance_op(9, 77, num(8.0), 60)),
        (String::from("ts:ntp:9:offset_vs_mean"), 77, 8.0, 60)
    );
    assert_eq!(
        point(&ping_op(9, 77, num(9.0), 60)),
        (String::from("ts:ntp:9:ping_ms"), 77, 9.0, 60)
    );
    let mut extras = PollExtras {
        score: num(10.0),
        weight: num(11.0),
        remote_time_s: num(12.0),
        system_delta_s: num(13.0),
        offset_vs_mean: None,
        ping_ms: Some(num(14.0)),
    };
    let names = |op: StoreOp| match op {
        StoreOp::HmSet { key, fields } => (
            key,
            fields.into_iter().map(|(f, v)| (f, f64::from_bits(v.bits))).collect::<Vec<_>>(),
        ),
        StoreOp::TsAdd { .. } => panic!("not a record"),
    };
    let base = vec![
        ("offset_ns", 1.0),
        ("delay_ns", 2.0),
        ("jitter_ns", 3.0),
        ("score", 10.0),
        ("weight", 11.0),
        ("stratum", 4.0),
        ("drift_ppm", 5.0),
        ("remote_time_s", 12.0),
        ("system_delta_s", 13.0),
    ];
    let (key, found) = names(poll_summary_op(9, &v, &extras));
    assert_eq!(key, "hash:ntp:9:summary");
    let mut want = base.clone();
    want.push(("ping_ms", 14.0));
    assert_eq!(found, want);
    extras.offset_vs_mean = Some(num(15.0));
    extras.ping_ms = None;
    let mut with_mean = base;
    with_mean.push(("offset_vs_mean_ns", 15.0));
    assert_eq!(names(poll_summary_op(9, &v, &extras)).1, with_mean);
}

#[test]
fn mean_leaves_out_the_server_itself() {
    let sources = vec![source(1, "a", None), source(2, "b", None), source(1, "c", None), source(4, "d", None)];
    assert_eq!(other_source_ids(&sources, 1), vec![2, 4]);
    assert_eq!(other_source_ids(&sources, 9), vec![1, 2, 1, 4]);
}

#[test]
fn health_fades_after_five_seconds() {
    assert_eq!(health(10_000_000_000, Ok(Some(5_000_000_001))), Health::Fresh);
    assert_eq!(health(10_000_000_000, Ok(Some(5_000_000_000))), Health::Stale);
    assert_eq!(health(1, Ok(Some(u64::MAX))), Health::Fresh);
    assert_eq!(health(1, Ok(None)), Health::Stale);
    assert_eq!(health(1, Err(StoreUnavailable)), Health::Booting);
    assert_eq!(Health::Fresh.reply(), (200, "ok\n"));
    assert_eq!(Health::Stale.reply(), (503, "stale\n"));
    assert_eq!(Health::Booting.reply(), (503, "booting\n"));
}

#[test]
fn metrics_look_back_one_window() {
    let s = SamplingCfg { interval_ms: 1, window_sec: 3, burst: None };
    assert_eq!(lookback_start(&s, 10_000_000_000), 7_000_000_000);
    assert_eq!(lookback_start(&s, 1), 0);
    let none = SamplingCfg { interval_ms: 1, window_sec: 0, burst: None };
    assert_eq!(lookback_start(&none, 10_000_000_000), 9_000_000_000);
}

#[test]
fn system_time_is_wall_clock_time() {
    let before = std::time::SystemTime::now()
        .duration_since(std::time::UNIX_EPOCH)
        .unwrap()
        .as_nanos() as u64;
    let now = system_time_ns().unwrap();
    assert!(before <= now && now - before < 60_000_000_000);
}

#[test]
fn percentile_lies_between_neighbours() {
    let sorted = sorted_values(&vec![(1, num(3.0)), (2, num(-1.0)), (3, num(2.0))]);
    assert_eq!(sorted, vec![num(-1.0), num(2.0), num(3.0)]);
    assert_eq!(percentile(&sorted, 0), Some(Percentile::Between(num(-1.0), num(2.0))));
    assert_eq!(percentile(&sorted, 1), Some(Percentile::Between(num(2.0), num(3.0))));
    assert_eq!(percentile(&sorted, 2), Some(Percentile::Greatest(num(3.0))));
    assert_eq!(percentile(&sorted, usize::MAX), Some(Percentile::Greatest(num(3.0))));
    assert_eq!(percentile(&Vec::new(), 0), None);
}

fn text(last: &str, median: &str, p95: &str) -> SeriesText {
    SeriesText { last: last.to_string(), median: median.to_string(), p95: p95.to_string() }
}

#[test]
fn quantiles_are_labelled() {
    let mut body = String::from("x\n");
    add_quantile_series(&mut body, "m", &text("1", "2", "3"));
    assert_eq!(body, "x\nm{quantile=\"0.50\"} 2\nm{quantile=\"0.95\"} 3\n");
}

#[test]
fn series_without_points_are_silent() {
    let mut body = String::new();
    let series = PrimarySeries {
        fused_offset: None,
        drift: Some(text("1", "2", "3")),
        phc_system_offset: None,
        phc_fused_delta: Some(text("4", "5", "6")),
    };
    write_primary_metrics(&mut body, &series);
    assert_eq!(
        body,
        "# TYPE zeitpeer_drift_ppm gauge\n\
         zeitpeer_drift_ppm 1\n\
         zeitpeer_drift_ppm{quantile=\"0.50\"} 2\n\
         zeitpeer_drift_ppm{quantile=\"0.95\"} 3\n\
         # TYPE zeitpeer_p2p_vs_phc_offset_ns gauge\n\
         zeitpeer_p2p_vs_phc_offset_ns 4\n\
         zeitpeer_p2p_vs_phc_offset_ns{quantile=\"0.50\"} 5\n\
         zeitpeer_p2p_vs_phc_offset_ns{quantile=\"0.95\"} 6\n"
    );
}

#[test]
fn stored_fields_are_found_by_name() {
    let record = fields(&[("a", "1"), ("b", "2.50"), ("x", "abc")]);
    assert_eq!(stored_number(&record, "b"), Some("2.5"));
    assert_eq!(stored_number(&record, "x"), None);
    assert_eq!(stored_number(&record, "c"), None);
}

#[test]
fn peer_record_is_reported_in_table_order() {
    let mut body = String::new();
    append_peer_metrics(
        &mut body,
        7,
        &fields(&[("score", "4"), ("other", "9"), ("offset_ns", "-1.5")]),
    );
    assert_eq!(
        body,
        "zeitpeer_peer_offset_ns{peer_id=\"7\"} -1.5\nzeitpeer_peer_score{peer_id=\"7\"} 4\n"
    );
    let mut full = String::new();
    append_peer_metrics(
        &mut full,
        7,
        &fields(&[("offset_ns", "1"), ("delay_ns", "2"), ("jitter_ns", "3"), ("score", "4")]),
    );
    assert_eq!(
        full,
        "zeitpeer_peer_offset_ns{peer_id=\"7\"} 1\nzeitpeer_peer_delay_ns{peer_id=\"7\"} 2\n\
         zeitpeer_peer_jitter_ns{peer_id=\"7\"} 3\nzeitpeer_peer_score{peer_id=\"7\"} 4\n"
    );
}

#[test]
fn ntp_record_is_reported_with_alias_or_host() {
    let names = [
        ("offset_ns", "offset_ns"),
        ("delay_ns", "delay_ns"),
        ("jitter_ns", "jitter_ns"),
        ("score", "score"),
        ("stratum", "stratum"),
        ("weight", "weight"),
        ("drift_ppm", "drift_ppm"),
        ("remote_time_s", "remote_time_seconds"),
        ("system_delta_s", "remote_delta_seconds"),
        ("ping_ms", "ping_ms"),
        ("offset_vs_mean_ns", "offset_vs_mean_ns"),
    ];
    let record: Vec<(String, Option<String>)> =
        names.iter().enumerate().map(|(i, (f, _))| (f.to_string(), Some(i.to_string()))).collect();
    let mut want = String::new();
    for (i, (_, metric)) in names.iter().enumerate() {
        want.push_str(&format!("zeitpeer_ntp_{}{{ntp_id=\"9\",alias=\"g\"}} {}\n", metric, i));
    }
    let mut body = String::new();
    append_ntp_metrics(&mut body, &source(9, "host", Some("g")), &record);
    assert_eq!(body, want);
    let mut plain = String::new();
    append_ntp_metrics(&mut plain, &source(9, "host", None), &fields(&[("score", "1")]));
    assert_eq!(plain, "zeitpeer_ntp_score{ntp_id=\"9\",alias=\"host\"} 1\n");
    let mut silent = String::new();
    append_ntp_metrics(&mut silent, &source(9, "host", None), &Vec::new());
    assert_eq!(silent, "");
}

#[test]
fn report_keys_name_the_source() {
    assert_eq!(peer_summary_key(3), "hash:peer:3:summary");
    assert_eq!(peer_timeouts_key(3), "ts:peer:3:timeouts");
    assert_eq!(ntp_summary_key(3), "hash:ntp:3:summary");
}

#[test]
fn document_holds_all_sections_in_order() {
    let cfg = config(vec![1, 2], vec![source(9, "h", None)]);
    let reports = vec![
        PeerReport { summary: fields(&[("score", "1")]), timeouts: Some(String::from("1")) },
        PeerReport { summary: Vec::new(), timeouts: None },
    ];
    let records = vec![fields(&[("ping_ms", "3.5")])];
    let series = PrimarySeries {
        fused_offset: Some(text("1", "2", "3")),
        drift: None,
        phc_system_offset: None,
        phc_fused_delta: None,
    };
    let mut tail = String::new();
    write_peer_metrics(&mut tail, &cfg, &reports, &records);
    assert_eq!(
        tail,
        "zeitpeer_peer_score{peer_id=\"1\"} 1\n\
         zeitpeer_peer_timeouts_total{peer_id=\"1\"} 1\n\
         zeitpeer_ntp_ping_ms{ntp_id=\"9\",alias=\"h\"} 3.5\n"
    );
    let mut want = String::from("# zeitpeer metrics\nzeitpeer_node_info{node_id=\"42\"} 1\n");
    write_primary_metrics(&mut want, &series);
    want.push_str(&tail);
    assert_eq!(metrics(&cfg, &series, &reports, &records), want);
}

#[test]
fn metrics_read_what_fusion_writes() {
    assert_eq!(
        primary_keys(),
        vec!["ts:fused:ewma", "ts:fused:drift_ppm", "ts:phc:system_offset", "ts:phc:fused_delta"]
    );
    assert_eq!(health_key(), "ts:fused:ewma");
}

#[test]
fn poll_summary_is_reported_whole() {
    let v = PollValues {
        offset: num(1.0),
        delay: num(2.0),
        jitter: num(3.0),
        stratum: num(4.0),
        drift_ppm: num(5.0),
    };
    let extras = PollExtras {
        score: num(10.0),
        weight: num(11.0),
        remote_time_s: num(12.0),
        system_delta_s: num(13.0),
        offset_vs_mean: Some(num(15.0)),
        ping_ms: Some(num(14.0)),
    };
    let record: Vec<(String, Option<String>)> = match poll_summary_op(9, &v, &extras) {
        StoreOp::HmSet { fields, .. } => fields
            .into_iter()
            .map(|(f, x)| (f.to_string(), Some(f64::from_bits(x.bits).to_string())))
            .collect(),
        StoreOp::TsAdd { .. } => panic!("not a record"),
    };
    let mut body = String::new();
    append_ntp_metrics(&mut body, &source(9, "h", None), &record);
    assert_eq!(body.lines().count(), record.len());
}

#[test]
fn equal_measurements_have_different_members() {
    let mut store = RedisStore::new();
    let first = words(&store.ts_add("k", 100, "1", 0)[0]);
    let second = words(&store.ts_add("k", 100, "1", 0)[0]);
    assert_ne!(first[3], second[3]);
}

#[test]
fn equal_samples_are_both_read_back() {
    let mut store = RedisStore::new();
    let mut reply: Vec<(u64, Option<Binary64>)> = Vec::new();
    for _ in 0..2 {
        let commands = store.ts_add("k", 100, "-1.5", 0);
        assert_eq!(commands.len(), 1);
        match &commands[0].args[2] {
            Arg::Text(member) => {
                let text = parse_member_value(member).unwrap();
                reply.push((100, text.parse::<f64>().ok().map(num)));
            }
            _ => panic!("member is text"),
        }
    }
    assert_eq!(read_recent(&reply), vec![(100, num(-1.5)), (100, num(-1.5))]);
}

#[test]
fn peer_field_without_a_number_adds_no_line() {
    let mut body = String::from("x\n");
    append_peer_metrics(
        &mut body,
        7,
        &fields(&[("score", "3.0"), ("offset_ns", "1.5"), ("jitter_ns", "abc"), ("weight", "9")]),
    );
    assert_eq!(
        body,
        "x\nzeitpeer_peer_offset_ns{peer_id=\"7\"} 1.5\nzeitpeer_peer_score{peer_id=\"7\"} 3\n"
    );
    let mut silent = String::new();
    append_peer_metrics(&mut silent, 7, &fields(&[("offset_ns", "abc"), ("weight", "9")]));
    assert_eq!(silent, "");
}

#[test]
fn ntp_field_without_a_number_adds_no_line() {
    let mut body = String::new();
    append_ntp_metrics(
        &mut body,
        &source(5, "h.example", None),
        &fields(&[("system_delta_s", "-1"), ("offset_ns", "x"), ("remote_time_s", "2.50")]),
    );
    assert_eq!(
        body,
        "zeitpeer_ntp_remote_time_seconds{ntp_id=\"5\",alias=\"h.example\"} 2.5\n\
         zeitpeer_ntp_remote_delta_seconds{ntp_id=\"5\",alias=\"h.example\"} -1\n"
    );
}

#[test]
fn failed_polls_leave_no_trace() {
    let poll = |ts_ns: u64, delay: f64, offset: f64, change: f64, slope: f64| PolledSample {
        point: PolledPoint { ts_ns, delay: num(delay), offset: num(offset) },
        stratum: num(2.0),
        change: num(change),
        slope: num(slope),
    };
    let mut state = PollState::new();
    let (values, ops) = state.after_poll(9, None, 60);
    assert_eq!(values, None);
    assert!(ops.is_empty());
    assert_eq!(state, PollState::new());
    let (first, ops) = state.after_poll(9, Some(poll(100, 5.0, 1.0, 9.0, 9.0)), 60);
    assert_eq!(first.map(|v| (v.jitter, v.drift_ppm)), Some((num(0.0), num(0.0))));
    assert_eq!(ops.len(), 5);
    let remembered = state;
    assert!(state.after_poll(9, None, 60).1.is_empty());
    assert_eq!(state, remembered);
    let (second, ops) = state.after_poll(9, Some(poll(130, 7.0, 2.0, 2.0, 0.5)), 60);
    assert_eq!(second.map(|v| (v.jitter, v.drift_ppm)), Some((num(2.0), num(0.5))));
    assert_eq!(point(&ops[2]), (String::from("ts:ntp:9:jitter"), 130, 2.0, 60));
    assert_eq!(point(&ops[4]), (String::from("ts:ntp:9:drift_ppm"), 130, 0.5, 60));
}
