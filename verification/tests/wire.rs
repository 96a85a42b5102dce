use zeitpeer::net::node::{
    answer, classify, latency_op, make_probe, measurement_ops, monotonic_fallback_ns, next_probe,
    open_request, open_response, probe_plan, service_latency_ns, timeout_op, Datagram, PeerRuntime,
    ProbeCounter, RuntimeTable, MAX_PACKET, SERVER_QUALITY,
};
use zeitpeer::net::pending::{
    Measurement, PendingRequest, PendingTable, ResponseOutcome, RESPONSE_TIMEOUT_MS,
};
use zeitpeer::net::proto::{
    decode_request, decode_response, encode_request, encode_response, Header, TimeRequest,
    TimeResponse, WireError, MSG_REQ, MSG_RESP, REQUEST_LEN, RESPONSE_LEN, WIRE_VERSION,
};
use zeitpeer::binary64::Binary64;
use zeitpeer::config::{Config, FilterCfg, ModeCfg, PeerEntry, SamplingCfg};
use zeitpeer::store::keys::StoreOp;

fn num(x: f64) -> Binary64 {
    Binary64 { bits: x.to_bits() }
}

fn config(node_id: u32, peers: Vec<PeerEntry>) -> Config {
    Config {
        node_id,
        listen_addr: String::from("0.0.0.0:7001"),
        redis_url: String::from("redis://localhost"),
        phc_device: Some(String::from("/dev/ptp0")),
        telemetry_addr: String::from("127.0.0.1:9090"),
        sampling: SamplingCfg { interval_ms: 100, window_sec: 30, burst: None },
        filter: FilterCfg {
            lambda: num(0.2),
            trim_ratio: num(0.1),
            best_quantile: num(0.5),
            min_samples_per_peer: 3,
        },
        peers,
        mode: ModeCfg::default(),
        tags: std::collections::HashMap::new(),
        ntp_sources: Vec::new(),
    }
}

fn peer(id: u32, ip: &str, port: u16) -> PeerEntry {
    PeerEntry { id, ip: String::from(ip), port, weight: None }
}

fn sample_request() -> TimeRequest {
    let mut reserved = [0u8; 16];
    let mut signature = [0u8; 32];
    for i in 0..16 {
        reserved[i] = 0xA0 + i as u8;
    }
    for i in 0..32 {
        signature[i] = 0x40 + i as u8;
    }
    TimeRequest {
        header: Header { ver: 1, kind: 1, seq: 0x0403_0201 },
        sender_id: 0x0807_0605,
        t1_send_ns: 0x100f_0e0d_0c0b_0a09,
        reserved,
        signature,
    }
}

fn sample_response() -> TimeResponse {
    TimeResponse {
        header: Header { ver: 1, kind: 2, seq: 7 },
        server_id: 0x0102_0304,
        t1_echo_ns: 11,
        t2_recv_ns: 0xff,
        t3_send_ns: u64::MAX,
        server_quality: 100,
        reserved: [3u8; 16],
        signature: [9u8; 32],
    }
}

fn ts_add(op: &StoreOp) -> (String, u64, f64, u64) {
    match op {
        StoreOp::TsAdd { key, ts_ns, val, window_ns } => {
            (key.clone(), *ts_ns, f64::from_bits(val.bits), *window_ns)
        }
        StoreOp::HmSet { .. } => panic!("not a point"),
    }
}

#[test]
fn header_has_current_version() {
    assert_eq!(Header::new(MSG_RESP, 9), Header { ver: WIRE_VERSION, kind: 2, seq: 9 });
    assert_eq!(Header::new(MSG_REQ, 0), Header { ver: 1, kind: 1, seq: 0 });
}

#[test]
fn request_bytes_are_little_endian_fields_in_order() {
    let bytes = encode_request(&sample_request()).unwrap();
    assert_eq!(bytes.len(), REQUEST_LEN);
    let mut want = vec![1u8, 1];
    want.extend(1u8..=16);
    want.extend(0xA0u8..0xB0);
    want.extend(0x40u8..0x60);
    assert_eq!(bytes, want);
}

#[test]
fn response_bytes_are_little_endian_fields_in_order() {
    let bytes = encode_response(&sample_response()).unwrap();
    assert_eq!(bytes.len(), RESPONSE_LEN);
    let mut want = vec![1u8, 2, 7, 0, 0, 0, 4, 3, 2, 1];
    want.extend([11u8, 0, 0, 0, 0, 0, 0, 0]);
    want.extend([0xffu8, 0, 0, 0, 0, 0, 0, 0]);
    want.extend([0xffu8; 8]);
    want.extend([100u8, 0, 0, 0]);
    want.extend([3u8; 16]);
    want.extend([9u8; 32]);
    assert_eq!(bytes, want);
}

#[test]
fn request_survives_the_wire() {
    let sent = sample_request();
    let mut datagram = encode_request(&sent).unwrap();
    assert_eq!(decode_request(&datagram), Ok(sent));
    datagram.extend([1u8, 2, 3]);
    assert_eq!(decode_request(&datagram), Ok(sent));
}

#[test]
fn response_survives_the_wire() {
    let sent = sample_response();
    let mut datagram = encode_response(&sent).unwrap();
    assert_eq!(decode_response(&datagram), Ok(sent));
    datagram.push(0xEE);
    assert_eq!(decode_response(&datagram), Ok(sent));
}

#[test]
fn different_requests_have_different_encodings() {
    let a = sample_request();
    let mut b = a;
    b.signature[31] = 0;
    assert_ne!(encode_request(&a), encode_request(&b));
}

#[test]
fn different_responses_have_different_encodings() {
    let a = sample_response();
    let mut b = a;
    b.t2_recv_ns += 256;
    assert_ne!(encode_response(&a), encode_response(&b));
}

#[test]
fn short_packets_are_truncated() {
    let req = encode_request(&sample_request()).unwrap();
    let resp = encode_response(&sample_response()).unwrap();
    assert_eq!(decode_request(&req[..REQUEST_LEN - 1]), Err(WireError::Truncated));
    assert_eq!(decode_response(&resp[..RESPONSE_LEN - 1]), Err(WireError::Truncated));
    assert_eq!(decode_request(&[]), Err(WireError::Truncated));
}

#[test]
fn packets_are_recognised_by_their_kind() {
    let probe = make_probe(5, 1, 1000);
    let req = encode_request(&probe).unwrap();
    let resp = encode_response(&answer(&probe, 6, 1100, 1200)).unwrap();
    assert_eq!(classify(&req), Datagram::Request);
    assert_eq!(classify(&resp), Datagram::Response);
    assert!(req.len() <= MAX_PACKET && resp.len() <= MAX_PACKET);
    assert_eq!(classify(&[1]), Datagram::Ignored);
    assert_eq!(classify(&[1, 3]), Datagram::Ignored);
    assert_eq!(classify(&[0, 1]), Datagram::Request);
}

#[test]
fn other_versions_are_ignored() {
    let mut req = encode_request(&make_probe(5, 1, 1000)).unwrap();
    assert_eq!(open_request(&req), Ok(Some(make_probe(5, 1, 1000))));
    req[0] = 2;
    assert_eq!(open_request(&req), Ok(None));
    assert_eq!(open_request(&req[..20]), Err(WireError::Truncated));
    let mut resp = encode_response(&sample_response()).unwrap();
    assert_eq!(open_response(&resp), Ok(Some(sample_response())));
    resp[0] = 0;
    assert_eq!(open_response(&resp), Ok(None));
    assert_eq!(open_response(&resp[..85]), Err(WireError::Truncated));
}

#[test]
fn answer_echoes_the_probe() {
    let probe = make_probe(5, 77, 1000);
    let resp = answer(&probe, 6, 1100, 1250);
    assert_eq!(resp.header, Header { ver: 1, kind: 2, seq: 77 });
    assert_eq!(resp.server_id, 6);
    assert_eq!(resp.t1_echo_ns, 1000);
    assert_eq!(resp.t2_recv_ns, 1100);
    assert_eq!(resp.t3_send_ns, 1250);
    assert_eq!(resp.server_quality, SERVER_QUALITY);
    assert_eq!(resp.reserved, [0u8; 16]);
    assert_eq!(resp.signature, [0u8; 32]);
}

#[test]
fn answered_probe_is_measured() {
    let mut table = PendingTable::new();
    let probe = make_probe(5, 77, 1_000);
    table.insert(77, PendingRequest { peer_id: 6, t1_ns: 1_000, sent_at_ns: 0 });
    let resp = answer(&probe, 6, 1_600, 1_700);
    let outcome = table.accept_response(&resp, 1_300);
    assert_eq!(
        outcome,
        ResponseOutcome::Measured(Measurement {
            server_id: 6,
            delay_ns: 200,
            offset_ns: 500,
            quality: 100,
        })
    );
}

#[test]
fn second_response_is_an_orphan() {
    let mut table = PendingTable::new();
    table.insert(1, PendingRequest { peer_id: 6, t1_ns: 10, sent_at_ns: 0 });
    let resp = answer(&make_probe(5, 1, 10), 6, 20, 30);
    assert!(matches!(table.accept_response(&resp, 40), ResponseOutcome::Measured(_)));
    assert_eq!(table.accept_response(&resp, 40), ResponseOutcome::Orphan);
}

#[test]
fn response_of_another_peer_is_a_mismatch() {
    let mut table = PendingTable::new();
    table.insert(1, PendingRequest { peer_id: 6, t1_ns: 10, sent_at_ns: 0 });
    table.insert(2, PendingRequest { peer_id: 8, t1_ns: 11, sent_at_ns: 0 });
    let resp = answer(&make_probe(5, 1, 10), 7, 20, 30);
    assert_eq!(
        table.accept_response(&resp, 40),
        ResponseOutcome::ServerMismatch { expected: 6 }
    );
    assert_eq!(table.take(1), None);
    assert_eq!(
        table.take(2),
        Some(PendingRequest { peer_id: 8, t1_ns: 11, sent_at_ns: 0 })
    );
}

#[test]
fn requests_expire_strictly_after_the_timeout() {
    let mut table = PendingTable::new();
    let budget = RESPONSE_TIMEOUT_MS as u128 * 1_000_000;
    let early = PendingRequest { peer_id: 6, t1_ns: 10, sent_at_ns: 999 };
    let late = PendingRequest { peer_id: 7, t1_ns: 11, sent_at_ns: 1_000 };
    let future = PendingRequest { peer_id: 8, t1_ns: 12, sent_at_ns: u128::MAX };
    table.insert(1, early);
    table.insert(2, late);
    table.insert(3, future);
    let expired = table.expire(1_000 + budget, RESPONSE_TIMEOUT_MS);
    assert_eq!(expired, vec![(1, early)]);
    assert_eq!(table.take(1), None);
    assert_eq!(table.take(2), Some(late));
    assert_eq!(table.take(3), Some(future));
    assert_eq!(table.expire(u128::MAX, 0), vec![]);
}

#[test]
fn probe_numbers_wrap() {
    let mut counter = ProbeCounter::new();
    assert_eq!(counter.take(), 1);
    assert_eq!(counter.take(), 2);
    let mut last = ProbeCounter { next: u32::MAX };
    assert_eq!(last.take(), u32::MAX);
    assert_eq!(last.take(), 0);
}

#[test]
fn probe_is_encoded_under_the_next_number() {
    let mut counter = ProbeCounter::default();
    assert_eq!(next_probe(&mut counter, 5, None), None);
    let (seq, bytes) = next_probe(&mut counter, 5, Some(99)).unwrap();
    assert_eq!(seq, 2);
    assert_eq!(decode_request(&bytes), Ok(make_probe(5, 2, 99)));
    assert_eq!(counter.next, 3);
}

#[test]
fn node_probes_the_other_peers() {
    let mut cfg = config(2, vec![peer(1, "10.0.0.1", 7001), peer(2, "10.0.0.2", 7002), peer(3, "::1", 0)]);
    cfg.sampling.interval_ms = 0;
    cfg.sampling.burst = Some(0);
    let plan = probe_plan(&cfg);
    assert!(plan.enabled);
    assert_eq!(plan.interval_ms, 1);
    assert_eq!(plan.burst, 1);
    let targets: Vec<(u32, String)> =
        plan.targets.iter().map(|t| (t.peer_id, t.addr.clone())).collect();
    assert_eq!(
        targets,
        vec![(1, String::from("10.0.0.1:7001")), (3, String::from("::1:0"))]
    );
    cfg.phc_device = None;
    cfg.sampling.burst = Some(4);
    let idle = probe_plan(&cfg);
    assert!(!idle.enabled);
    assert_eq!(idle.burst, 4);
}

#[test]
fn latency_is_never_negative() {
    assert_eq!(service_latency_ns(10, 25), 15);
    assert_eq!(service_latency_ns(25, 10), 0);
    let op = latency_op(4, 77, num(15.0), 5);
    assert_eq!(ts_add(&op), (String::from("ts:peer:4:service_latency"), 77, 15.0, 5));
}

#[test]
fn timeout_counts_one() {
    let op = timeout_op(12, 9, 1_000);
    assert_eq!(ts_add(&op), (String::from("ts:peer:12:timeouts"), 9, 1.0, 1_000));
}

#[test]
fn jitter_needs_an_earlier_delay() {
    let mut table = RuntimeTable::new();
    assert_eq!(table.last_delay(6), None);
    assert_eq!(table.record(6, num(10.0), num(1.0), num(99.0)), num(0.0));
    assert_eq!(table.last_delay(6), Some(num(10.0)));
    assert_eq!(table.record(6, num(13.0), num(2.0), num(3.0)), num(3.0));
    assert_eq!(table.last_delay(6), Some(num(13.0)));
    assert_eq!(table.last_delay(7), None);
    let fresh = PeerRuntime { last_delay_ns: None, last_offset_ns: None, last_jitter_ns: None };
    assert_eq!(fresh.last_delay_ns, None);
}

#[test]
fn measurement_is_recorded_in_four_series() {
    let ops = measurement_ops(6, 1_000, num(-5.0), num(8.0), num(0.5), num(100.0), 60);
    let points: Vec<(String, u64, f64, u64)> = ops.iter().map(ts_add).collect();
    assert_eq!(
        points,
        vec![
            (String::from("ts:peer:6:offset"), 1_000, -5.0, 60),
            (String::from("ts:peer:6:delay"), 1_000, 8.0, 60),
            (String::from("ts:peer:6:jitter"), 1_000, 0.5, 60),
            (String::from("ts:peer:6:quality"), 1_000, 100.0, 60),
        ]
    );
}

#[test]
fn fallback_time_is_wall_clock_time() {
    let elapsed = || {
        std::time::SystemTime::now()
            .duration_since(std::time::UNIX_EPOCH)
            .unwrap()
            .as_nanos() as u64
    };
    let before = elapsed();
    let ns = monotonic_fallback_ns().unwrap();
    let after = elapsed();
    assert!(before <= ns && ns <= after);
}

#[test]
fn exchange_over_the_wire_is_measured() {
    let mut counter = ProbeCounter::new();
    let mut table = PendingTable::new();
    let (seq, mut payload) = next_probe(&mut counter, 5, Some(1_000)).unwrap();
    table.insert(seq, PendingRequest { peer_id: 6, t1_ns: 1_000, sent_at_ns: 0 });
    payload.extend([7u8; 9]);
    let arrived = open_request(&payload).unwrap().unwrap();
    let mut reply = encode_response(&answer(&arrived, 6, 1_600, 1_700)).unwrap();
    reply.push(1);
    let returned = open_response(&reply).unwrap().unwrap();
    assert_eq!(
        table.accept_response(&returned, 1_300),
        ResponseOutcome::Measured(Measurement {
            server_id: 6,
            delay_ns: 200,
            offset_ns: 500,
            quality: 100,
        })
    );
}
