use std::time::Duration;
use zeitpeer::net::ntp::{
    client_packet, decode_ntp_timestamp, encode_ntp_timestamp, read_response, NtpError,
};
use zeitpeer::phc::reader::{
    clockid_from_fd, count_reading, fallback_clock_id, first_now_step, next_now_step,
    offset_between, reading_of, timespec_to_ns, ClockError, ClockReading, ClockSource, NowStep, PhcReader, PhcStep, CLOCK_REALTIME, CLOCK_TAI,
};
use zeitpeer::time::calc::{compute_offset_delay, PairCalc};
use zeitpeer::util::{
    duration_to_ns, elapsed_to_epoch_ns, monotonic_ns, monotonic_ns_at, parts_to_ns, wall_clock_ns,
    MonotonicClock,
};

const SECOND: u64 = 1_000_000_000;

fn wall_ns() -> u64 {
    std::time::SystemTime::now()
        .duration_since(std::time::UNIX_EPOCH)
        .unwrap()
        .as_nanos() as u64
}

#[test]
fn durations_are_counted_in_nanoseconds() {
    assert_eq!(duration_to_ns(Duration::new(3, 7)), 3_000_000_007);
    assert_eq!(duration_to_ns(Duration::from_millis(1_500)), 1_500_000_000);
    assert_eq!(duration_to_ns(Duration::new(0, 0)), 0);
    assert_eq!(duration_to_ns(Duration::MAX), Duration::MAX.as_nanos());
    assert_eq!(parts_to_ns(2, 5), 2_000_000_005);
}

#[test]
fn monotonic_clock_starts_at_zero() {
    let mut clock = MonotonicClock::new();
    assert_eq!(monotonic_ns(&mut clock), 0);
    let start = clock.start.unwrap();
    let mut last = 0;
    for _ in 0..100 {
        let now = monotonic_ns(&mut clock);
        assert!(now >= last);
        last = now;
    }
    assert_eq!(clock.start, Some(start));
    assert!(last <= start.elapsed().as_nanos());
}

#[test]
fn wall_clock_counts_from_the_epoch() {
    let before = wall_ns();
    let now = wall_clock_ns().unwrap();
    assert!(before <= now && now <= wall_ns());
}

#[test]
fn epoch_counts_are_limited_to_64_bits() {
    assert_eq!(elapsed_to_epoch_ns(None), Some(0));
    assert_eq!(elapsed_to_epoch_ns(Some(Duration::new(1, 2))), Some(1_000_000_002));
    assert_eq!(elapsed_to_epoch_ns(Some(Duration::from_nanos(u64::MAX))), Some(u64::MAX));
    assert_eq!(
        elapsed_to_epoch_ns(Some(Duration::from_nanos(u64::MAX) + Duration::from_nanos(1))),
        None
    );
}

#[test]
fn four_timestamps_give_delay_and_offset() {
    assert_eq!(
        compute_offset_delay(1_000, 1_600, 1_700, 1_300),
        PairCalc { delay_ns: 200, offset_ns: 500 }
    );
    // Halves are rounded towards zero on both sides.
    assert_eq!(compute_offset_delay(0, 1, 1, 1).offset_ns, 0);
    assert_eq!(compute_offset_delay(0, 3, 0, 0).offset_ns, 1);
    assert_eq!(compute_offset_delay(3, 0, 0, 0).offset_ns, -1);
    assert_eq!(compute_offset_delay(0, 0, 0, 0), PairCalc { delay_ns: 0, offset_ns: 0 });
}

#[test]
fn delay_is_the_round_trip() {
    let (t1, t3, theta, out, back) = (5_000i128, 9_000i128, -70i128, 30i128, 11i128);
    let calc = compute_offset_delay(t1, t1 + out + theta, t3, t3 + back - theta);
    assert_eq!(calc.delay_ns, out + back);
    assert!((calc.offset_ns - theta).abs() <= (out + back + 1) / 2);
}

#[test]
fn symmetric_path_gives_the_exact_offset() {
    let calc = compute_offset_delay(100, 100 + 40 + 7, 500, 500 + 40 - 7);
    assert_eq!(calc.offset_ns, 7);
}

#[test]
fn half_the_delay_can_be_missed_by_rounding() {
    // One way takes one nanosecond, the other none, and the server is one behind.
    let calc = compute_offset_delay(0, 0, 0, 1);
    assert_eq!(calc.delay_ns, 1);
    assert_eq!(calc.offset_ns - (-1), 1);
}

#[test]
fn server_clock_does_not_change_the_delay() {
    let a = compute_offset_delay(1, 20, 30, 44);
    let b = compute_offset_delay(1, 1_020, 1_030, 44);
    assert_eq!(a.delay_ns, b.delay_ns);
    let c = compute_offset_delay(1_001, 1_020, 1_030, 1_044);
    assert_eq!(a, c);
    let swapped = compute_offset_delay(20, 1, 44, 30);
    assert_eq!(swapped.offset_ns, -a.offset_ns);
}

#[test]
fn timestamp_counts_from_1900() {
    let mut buf = [0xAAu8; 10];
    encode_ntp_timestamp(&mut buf, SECOND / 2);
    assert_eq!(buf, [0x83, 0xAA, 0x7E, 0x80, 0x80, 0, 0, 0, 0xAA, 0xAA]);
}

#[test]
fn timestamp_is_read_back_within_a_nanosecond() {
    for ns in [0u64, 1, 1_953_124, 1_953_125, 5 * 1_953_125, 999_999_999, SECOND, 1_700_000_000 * SECOND + 123_456_789] {
        let mut buf = [0u8; 8];
        encode_ntp_timestamp(&mut buf, ns);
        let read = decode_ntp_timestamp(&buf).unwrap();
        let early = if ns % SECOND % 1_953_125 == 0 { 0 } else { 1 };
        assert_eq!(read, ns as i128 - early);
    }
}

#[test]
fn timestamps_keep_order() {
    let mut last = i128::MIN;
    for ns in [5u64, 6, 7, 900, SECOND - 1, SECOND, SECOND + 1] {
        let mut buf = [0u8; 8];
        encode_ntp_timestamp(&mut buf, ns);
        let read = decode_ntp_timestamp(&buf).unwrap();
        assert!(last <= read);
        last = read;
    }
}

#[test]
fn seconds_beyond_the_era_are_held() {
    let mut buf = [0u8; 8];
    encode_ntp_timestamp(&mut buf, u64::MAX);
    assert_eq!(buf[..4], [0xff, 0xff, 0xff, 0xff]);
}

#[test]
fn unset_timestamp_is_zero() {
    assert_eq!(decode_ntp_timestamp(&[0u8; 8]), Ok(0));
    assert_eq!(decode_ntp_timestamp(&[0, 0, 0, 1, 0, 0, 0, 0]), Ok(-2_208_988_799_000_000_000));
    assert_eq!(decode_ntp_timestamp(&[0u8; 7]), Err(NtpError::ShortTimestamp));
}

#[test]
fn client_packet_carries_mode_and_time() {
    let packet = client_packet(SECOND / 2);
    assert_eq!(packet[0], 0x23);
    assert!(packet[1..40].iter().all(|b| *b == 0));
    assert_eq!(packet[40..48], [0x83, 0xAA, 0x7E, 0x80, 0x80, 0, 0, 0]);
}

fn server_response(originate: Option<u64>, receive: u64, transmit: u64) -> [u8; 48] {
    let mut resp = [0u8; 48];
    resp[1] = 2;
    if let Some(ns) = originate {
        encode_ntp_timestamp(&mut resp[24..32], ns);
    }
    encode_ntp_timestamp(&mut resp[32..40], receive);
    encode_ntp_timestamp(&mut resp[40..48], transmit);
    resp
}

#[test]
fn response_yields_a_sample() {
    let base = 1_700_000_000 * SECOND;
    let resp = server_response(Some(base), base + 5 * SECOND, base + 6 * SECOND);
    let sample = read_response(&resp, 1, base + 3 * SECOND).unwrap();
    assert_eq!(sample.timestamp_ns, base + 3 * SECOND);
    assert_eq!(sample.stratum, 2);
    assert_eq!(sample.delay_ns, 2 * SECOND as i128);
    assert_eq!(sample.offset_ns, 4 * SECOND as i128);
    assert_eq!(sample.remote_time_ns, (base + 6 * SECOND) as i128);
}

#[test]
fn zero_originate_falls_back_to_the_own_record() {
    let base = 1_700_000_000 * SECOND;
    let resp = server_response(None, base + 5 * SECOND, base + 6 * SECOND);
    let sample = read_response(&resp, base, base + 3 * SECOND).unwrap();
    assert_eq!(sample.delay_ns, 2 * SECOND as i128);
    assert_eq!(sample.offset_ns, 4 * SECOND as i128);
}

#[test]
fn short_response_yields_no_sample() {
    assert_eq!(read_response(&[0u8; 47], 1, 2), Err(NtpError::ShortResponse(47)));
    assert_eq!(read_response(&[], 1, 2), Err(NtpError::ShortResponse(0)));
}

#[test]
fn clock_id_encodes_the_descriptor() {
    assert_eq!(clockid_from_fd(3), -29);
    assert_eq!(clockid_from_fd(0), -5);
    for fd in [0, 1, 3, 17, 4_095] {
        assert_eq!(!(clockid_from_fd(fd) >> 3), fd);
    }
}

#[test]
fn readings_are_counted_in_nanoseconds() {
    assert_eq!(timespec_to_ns(&ClockReading { sec: 2, nsec: 5 }), 2_000_000_005);
    assert_eq!(count_reading(Some(ClockReading { sec: 2, nsec: 5 })), Ok(2_000_000_005));
    assert_eq!(count_reading(None), Err(ClockError::Unreadable));
    assert_eq!(
        count_reading(Some(ClockReading { sec: -1, nsec: 0 })),
        Err(ClockError::OutOfRange)
    );
    assert_eq!(
        count_reading(Some(ClockReading { sec: 18_446_744_073, nsec: 709_551_615 })),
        Ok(u64::MAX)
    );
    assert_eq!(
        count_reading(Some(ClockReading { sec: 18_446_744_073, nsec: 709_551_616 })),
        Err(ClockError::OutOfRange)
    );
    assert!(!ClockReading { sec: i64::MAX, nsec: 0 }.is_countable());
}

#[test]
fn phc_is_preferred() {
    let reading = Some(ClockReading { sec: 1, nsec: 1 });
    assert_eq!(first_now_step(Some(-29), true), NowStep::Read(ClockSource::Phc(-29)));
    assert_eq!(
        next_now_step(ClockSource::Phc(-29), reading),
        NowStep::Done(Ok(1_000_000_001))
    );
    assert_eq!(
        next_now_step(ClockSource::Phc(-29), None),
        NowStep::Done(Err(ClockError::Unreadable))
    );
}

#[test]
fn wall_clock_is_the_last_resort() {
    assert_eq!(first_now_step(None, true), NowStep::Read(ClockSource::Fallback(11)));
    assert_eq!(first_now_step(None, false), NowStep::Read(ClockSource::Fallback(0)));
    assert_eq!(
        next_now_step(ClockSource::Fallback(11), None),
        NowStep::Read(ClockSource::Realtime)
    );
    assert_eq!(
        next_now_step(ClockSource::Realtime, None),
        NowStep::Done(Err(ClockError::Unreadable))
    );
    assert_eq!(fallback_clock_id(true), 11);
    assert_eq!(fallback_clock_id(false), 0);
    assert_eq!(ClockSource::Fallback(11).clock_id(), 11);
    assert_eq!(ClockSource::Realtime.clock_id(), 0);
    assert_eq!(ClockSource::Phc(-5).clock_id(), -5);
}

#[test]
fn reader_opens_its_device_once() {
    let mut reader = PhcReader::new(Some(String::from("/dev/ptp9")), true);
    assert_eq!(reader.next_step(), PhcStep::OpenDevice);
    assert_eq!(reader.phc_clock_id(), None);
    assert!(reader.open_failed());
    assert!(!reader.open_failed());
    assert_eq!(reader.next_step(), PhcStep::OpenDevice);
    reader.device_opened(3);
    assert_eq!(reader.next_step(), PhcStep::ReadClock(-29));
    assert_eq!(reader.phc_clock_id(), Some(-29));
    assert_eq!(PhcReader::new(None, true).next_step(), PhcStep::Unavailable);
}

#[test]
fn reader_without_phc_tells_the_time() {
    let reader = PhcReader::new(None, true);
    let before = wall_ns();
    let system = reader.system_now_ns().unwrap();
    assert!(before <= system && system <= wall_ns());
    // Atomic time is ahead of the wall clock by less than a minute.
    let now = reader.now_ns().unwrap();
    assert!(now >= before && now <= wall_ns() + 60 * SECOND);
    assert_eq!(reader.phc_now_ns(), Ok(None));
    assert_eq!(reader.phc_system_offset(), Ok(None));
}

#[test]
fn unreadable_phc_is_an_error() {
    let mut reader = PhcReader::new(Some(String::from("/dev/ptp9")), true);
    reader.device_opened(1_000_000);
    assert_eq!(reader.now_ns(), Err(ClockError::Unreadable));
    assert_eq!(reader.phc_now_ns(), Err(ClockError::Unreadable));
    assert_eq!(reader.phc_system_offset(), Err(ClockError::Unreadable));
}

#[test]
fn offset_is_phc_minus_system() {
    assert_eq!(offset_between(Ok(10), Ok(25)), Ok(-15));
    assert_eq!(offset_between(Ok(u64::MAX), Ok(0)), Ok(u64::MAX as i128));
    assert_eq!(
        offset_between(Err(ClockError::OutOfRange), Err(ClockError::Unreadable)),
        Err(ClockError::OutOfRange)
    );
    assert_eq!(
        offset_between(Ok(1), Err(ClockError::Unreadable)),
        Err(ClockError::Unreadable)
    );
}

#[test]
fn clock_identifiers_are_those_of_the_system() {
    assert_eq!(CLOCK_REALTIME, libc::CLOCK_REALTIME);
    assert_eq!(CLOCK_TAI, libc::CLOCK_TAI);
    assert_eq!(CLOCK_TAI, nix::time::ClockId::CLOCK_TAI.as_raw());
}

#[test]
fn reply_of_the_system_is_seconds_and_nanoseconds() {
    assert_eq!(reading_of(Ok((2, 5))), Some(ClockReading { sec: 2, nsec: 5 }));
    assert_eq!(reading_of(Ok((-1, 0))), Some(ClockReading { sec: -1, nsec: 0 }));
    assert_eq!(reading_of(Err(nix::errno::Errno::EINVAL)), None);
}

#[test]
fn monotonic_clock_counts_from_the_first_reading() {
    let first = std::time::Instant::now();
    let mut clock = MonotonicClock::new();
    assert_eq!(monotonic_ns_at(&mut clock, first), 0);
    assert_eq!(clock.start, Some(first));
    let later = first + Duration::from_nanos(1_500_000_007);
    assert_eq!(monotonic_ns_at(&mut clock, later), 1_500_000_007);
    // A reading that lies before an earlier one repeats the last result.
    assert_eq!(monotonic_ns_at(&mut clock, first + Duration::from_nanos(3)), 1_500_000_007);
    assert_eq!(monotonic_ns_at(&mut clock, later + Duration::from_nanos(1)), 1_500_000_008);
    assert_eq!(clock.start, Some(first));
}

#[test]
fn monotonic_clock_advances() {
    let mut clock = MonotonicClock::new();
    assert_eq!(monotonic_ns(&mut clock), 0);
    let start = clock.start.unwrap();
    let (before, now, after) = loop {
        let before = start.elapsed().as_nanos();
        let now = monotonic_ns(&mut clock);
        if now > 0 && before > 0 {
            break (before, now, start.elapsed().as_nanos());
        }
    };
    assert!(before <= now && now <= after);
}

#[test]
fn other_platforms_use_the_wall_clock() {
    let mut reader = PhcReader::new(Some(String::from("/dev/ptp9")), false);
    assert_eq!(reader.next_step(), PhcStep::Unavailable);
    reader.device_opened(3);
    assert_eq!(reader.next_step(), PhcStep::Unavailable);
    assert_eq!(reader.phc_now_ns(), Ok(None));
    let before = wall_ns();
    let now = reader.now_ns().unwrap();
    assert!(before <= now && now <= wall_ns());
}
