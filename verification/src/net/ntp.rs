//! NTP as a client: packets, timestamps and what a response yields.
use vstd::prelude::*;

use crate::time::calc::{compute_offset_delay, delay_of, offset_of};
use crate::util::NANOS_PER_SEC;

verus! {

/// Length of an NTP packet without extensions.
pub const NTP_PACKET_LEN: usize = 48;

/// Seconds from the NTP epoch (1900) to the Unix epoch (1970).
pub const NTP_UNIX_TO_1900: u64 = 2_208_988_800;

/// Fractions of a second that an NTP timestamp resolves.
pub const FRACTIONS_PER_SEC: u64 = 0x1_0000_0000;

/// First byte of a client request: no leap warning, version 4, client mode.
pub const CLIENT_MODE: u8 = 0b00_100_011;

/// The bit pattern of 0.2, the weight of an NTP server unless configured.
pub const NTP_DEFAULT_WEIGHT_BITS: u64 = 0x3fc9_9999_9999_999a;

/// Why an NTP response yields no sample.
#[derive(Clone, Copy, Debug, PartialEq, Eq, Structural)]
pub enum NtpError {
    /// A timestamp needs eight bytes.
    ShortTimestamp,
    /// The response has only this many bytes.
    ShortResponse(usize),
}

/// The four bytes of `x`, most significant first.
pub open spec fn be4(x: int) -> Seq<u8> {
    seq![
        (x / 0x100_0000) as u8,
        (x / 0x1_0000 % 0x100) as u8,
        (x / 0x100 % 0x100) as u8,
        (x % 0x100) as u8,
    ]
}

/// The number whose four bytes, most significant first, start at `at`.
pub open spec fn be4_value(s: Seq<u8>, at: int) -> int {
    s[at] * 0x100_0000 + s[at + 1] * 0x1_0000 + s[at + 2] * 0x100 + s[at + 3]
}

/// Seconds since the NTP epoch, held at the largest value once 32 bits are exhausted.
pub open spec fn ntp_seconds(unix_ns: int) -> int {
    let secs = unix_ns / NANOS_PER_SEC as int + NTP_UNIX_TO_1900;
    if secs <= u32::MAX {
        secs
    } else {
        u32::MAX as int
    }
}

/// The part of `unix_ns` below one second in NTP fractions, rounded down.
pub open spec fn ntp_fraction(unix_ns: int) -> int {
    (unix_ns % NANOS_PER_SEC as int) * FRACTIONS_PER_SEC / NANOS_PER_SEC as int
}

/// The NTP timestamp of a Unix time in nanoseconds.
pub open spec fn timestamp_bytes(unix_ns: int) -> Seq<u8> {
    be4(ntp_seconds(unix_ns)) + be4(ntp_fraction(unix_ns))
}

/// The Unix time in nanoseconds of the NTP timestamp at `at`; the all-zero timestamp, which marks
/// an unset field, counts as zero.
pub open spec fn timestamp_ns(s: Seq<u8>, at: int) -> int {
    let secs = be4_value(s, at);
    let frac = be4_value(s, at + 4);
    if secs == 0 && frac == 0 {
        0
    } else {
        (secs - NTP_UNIX_TO_1900) * NANOS_PER_SEC + frac * NANOS_PER_SEC / FRACTIONS_PER_SEC as int
    }
}

/// Writes the NTP timestamp of `unix_ns` into the first eight bytes of `buf`.
pub fn encode_ntp_timestamp(buf: &mut [u8], unix_ns: u64)
    requires
        old(buf)@.len() >= 8,
    ensures
        final(buf)@ == timestamp_bytes(unix_ns as int) + old(buf)@.skip(8),
{
    let unix_sec: u64 = unix_ns / NANOS_PER_SEC;
    let unix_frac_ns: u64 = unix_ns % NANOS_PER_SEC;
    let ntp_sec: u64 = unix_sec + NTP_UNIX_TO_1900;
    let secs: u64 = if ntp_sec <= u32::MAX as u64 { ntp_sec } else { u32::MAX as u64 };
    let frac: u64 = unix_frac_ns * FRACTIONS_PER_SEC / NANOS_PER_SEC;
    assert(frac < FRACTIONS_PER_SEC);
    buf[0] = (secs / 0x100_0000) as u8;
    buf[1] = (secs / 0x1_0000 % 0x100) as u8;
    buf[2] = (secs / 0x100 % 0x100) as u8;
    buf[3] = (secs % 0x100) as u8;
    buf[4] = (frac / 0x100_0000) as u8;
    buf[5] = (frac / 0x1_0000 % 0x100) as u8;
    buf[6] = (frac / 0x100 % 0x100) as u8;
    buf[7] = (frac % 0x100) as u8;
    assert(buf@ =~= timestamp_bytes(unix_ns as int) + old(buf)@.skip(8));
}

fn read_be4(buf: &[u8], at: usize) -> (x: u64)
    requires
        at + 4 <= buf@.len(),
    ensures
        x == be4_value(buf@, at as int),
        x <= u32::MAX,
{
    buf[at] as u64 * 0x100_0000 + buf[at + 1] as u64 * 0x1_0000 + buf[at + 2] as u64 * 0x100
        + buf[at + 3] as u64
}

/// Reads the NTP timestamp in the first eight bytes of `buf` as a Unix time in nanoseconds.
pub fn decode_ntp_timestamp(buf: &[u8]) -> (ns: Result<i128, NtpError>)
    ensures
        buf@.len() < 8 ==> ns == Err::<i128, NtpError>(NtpError::ShortTimestamp),
        buf@.len() >= 8 ==> ns is Ok && ns->Ok_0 == timestamp_ns(buf@, 0),
{
    if buf.len() < 8 {
        return Err(NtpError::ShortTimestamp);
    }
    Ok(read_timestamp(buf, 0))
}

fn read_timestamp(buf: &[u8], at: usize) -> (ns: i128)
    requires
        at <= 40,
        at + 8 <= buf@.len(),
    ensures
        ns == timestamp_ns(buf@, at as int),
        -0x4000_0000_0000_0000 <= ns <= 0x4000_0000_0000_0000,
{
    let secs: u64 = read_be4(buf, at);
    let frac: u64 = read_be4(buf, at + 4);
    if secs == 0 && frac == 0 {
        return 0;
    }
    let unix_sec: i128 = secs as i128 - NTP_UNIX_TO_1900 as i128;
    let frac_ns: u64 = frac * NANOS_PER_SEC / FRACTIONS_PER_SEC;
    unix_sec * NANOS_PER_SEC as i128 + frac_ns as i128
}

/// What one poll of an NTP server yields.
#[derive(Clone, Copy, Debug, PartialEq, Eq, Structural)]
pub struct NtpSample {
    /// When the response arrived.
    pub timestamp_ns: u64,
    pub offset_ns: i128,
    pub delay_ns: i128,
    pub stratum: u8,
    /// When the server sent its response, by its own clock.
    pub remote_time_ns: i128,
}

/// A client request sent at `t1`: all zero but for the mode byte and the transmit timestamp.
pub open spec fn client_packet_bytes(t1: int) -> Seq<u8> {
    seq![CLIENT_MODE] + Seq::new(39, |i: int| 0u8) + timestamp_bytes(t1)
}

/// The request packet of a client at time `t1`.
pub fn client_packet(t1: u64) -> (packet: [u8; NTP_PACKET_LEN])
    ensures
        packet@ == client_packet_bytes(t1 as int),
{
    let mut packet: [u8; NTP_PACKET_LEN] = [0u8;48];
    packet[0] = CLIENT_MODE;
    let mut stamp: [u8; 8] = [0u8;8];
    encode_ntp_timestamp(&mut stamp, t1);
    assert(stamp@ =~= timestamp_bytes(t1 as int));
    let mut i: usize = 0;
    while i < 8
        invariant
            i <= 8,
            packet@.len() == 48,
            stamp@.len() == 8,
            packet@[0] == CLIENT_MODE,
            forall|k: int| 1 <= k < 40 ==> packet@[k] == 0,
            forall|k: int| 40 <= k < 40 + i ==> packet@[k] == stamp@[k - 40],
        decreases 8 - i,
    {
        packet[40 + i] = stamp[i];
        i += 1;
    }
    assert(packet@ =~= client_packet_bytes(t1 as int));
    packet
}

/// The client's send time as the response echoes it at bytes 24 to 31, or `t1` from the client's
/// own record where the server left that field zero.
pub open spec fn originate_ns(resp: Seq<u8>, t1: int) -> int {
    if timestamp_ns(resp, 24) == 0 {
        t1
    } else {
        timestamp_ns(resp, 24)
    }
}

/// `sample` is what a full response to a request sent at `t1` and received at `t4` yields.
pub open spec fn is_sample_of(resp: Seq<u8>, t1: int, t4: u64, sample: NtpSample) -> bool {
    let t1_used = originate_ns(resp, t1);
    let t2 = timestamp_ns(resp, 32);
    let t3 = timestamp_ns(resp, 40);
    &&& sample.timestamp_ns == t4
    &&& sample.stratum == resp[1]
    &&& sample.remote_time_ns == t3
    &&& sample.delay_ns == delay_of(t1_used, t2, t3, t4 as int)
    &&& sample.offset_ns == offset_of(t1_used, t2, t3, t4 as int)
}

/// Evaluates the response `resp` to a request sent at `t1` and received at `t4`.
pub fn read_response(resp: &[u8], t1: u64, t4: u64) -> (sample: Result<NtpSample, NtpError>)
    ensures
        resp@.len() < NTP_PACKET_LEN ==> sample == Err::<NtpSample, NtpError>(
            NtpError::ShortResponse(resp@.len() as usize),
        ),
        resp@.len() >= NTP_PACKET_LEN ==> sample is Ok && is_sample_of(
            resp@,
            t1 as int,
            t4,
            sample->Ok_0,
        ),
{
    if resp.len() < NTP_PACKET_LEN {
        return Err(NtpError::ShortResponse(resp.len()));
    }
    let stratum: u8 = resp[1];
    let t1_remote: i128 = read_timestamp(resp, 24);
    let t2_remote: i128 = read_timestamp(resp, 32);
    let t3_remote: i128 = read_timestamp(resp, 40);
    // Some servers zero the originate field; fall back to local t1 in that case.
    let t1_used: i128 = if t1_remote == 0 { t1 as i128 } else { t1_remote };
    let calc = compute_offset_delay(t1_used, t2_remote, t3_remote, t4 as i128);
    Ok(
        NtpSample {
            timestamp_ns: t4,
            offset_ns: calc.offset_ns,
            delay_ns: calc.delay_ns,
            stratum,
            remote_time_ns: t3_remote,
        },
    )
}

/// The Unix times whose seconds an NTP timestamp can hold.
pub open spec fn in_ntp_era(unix_ns: int) -> bool {
    0 <= unix_ns && unix_ns / NANOS_PER_SEC as int + NTP_UNIX_TO_1900 <= u32::MAX
}

proof fn lemma_be4_value(x: int, before: Seq<u8>, after: Seq<u8>)
    requires
        0 <= x <= u32::MAX,
    ensures
        be4_value(before + be4(x) + after, before.len() as int) == x,
{
    let s = before + be4(x) + after;
    let at = before.len() as int;
    assert(s[at] == be4(x)[0]);
    assert(s[at + 1] == be4(x)[1]);
    assert(s[at + 2] == be4(x)[2]);
    assert(s[at + 3] == be4(x)[3]);
}

/// Nanoseconds between times that a timestamp holds exactly.
pub const EXACT_STEP_NS: u64 = 1_953_125;

proof fn lemma_exact_fractions(ns: int)
    requires
        0 <= ns < NANOS_PER_SEC,
    ensures
        ({
            let frac = ns * FRACTIONS_PER_SEC / NANOS_PER_SEC as int;
            let read = frac * NANOS_PER_SEC / FRACTIONS_PER_SEC as int;
            &&& 0 <= frac < FRACTIONS_PER_SEC
            &&& read == (if ns % EXACT_STEP_NS as int == 0 {
                ns
            } else {
                ns - 1
            })
        }),
{
    let step = EXACT_STEP_NS as int;
    let frac = ns * FRACTIONS_PER_SEC / NANOS_PER_SEC as int;
    let lost = ns * FRACTIONS_PER_SEC % NANOS_PER_SEC as int;
    assert(ns * FRACTIONS_PER_SEC == frac * NANOS_PER_SEC + lost);
    if ns % step == 0 {
        let k = ns / step;
        assert(ns == k * step);
        assert(frac == k * 0x80_0000);
    } else if lost == 0 {
        // The step is coprime to the fractions per second.
        assert(ns * 0x80_0000 == frac * step);
        assert(ns == (1_241_897 * frac - 5_333_907 * ns) * step) by {
            assert(1_241_897 * (ns * 0x80_0000) - 5_333_907 * (ns * step) == ns);
            assert(1_241_897 * (frac * step) - 5_333_907 * (ns * step) == (1_241_897 * frac
                - 5_333_907 * ns) * step) by (nonlinear_arith);
        }
        assert((1_241_897 * frac - 5_333_907 * ns) * step % step == 0) by (nonlinear_arith)
            requires
                step == 1_953_125,
        ;
        assert(false);
    }
}

/// A timestamp written anywhere in a packet is read back from there, exactly where the time below
/// the second is a multiple of [`EXACT_STEP_NS`], and one nanosecond early otherwise.
pub proof fn law_timestamp_round_trip(unix_ns: int, before: Seq<u8>, after: Seq<u8>)
    requires
        in_ntp_era(unix_ns),
    ensures
        timestamp_ns(before + timestamp_bytes(unix_ns) + after, before.len() as int) == (
        if unix_ns % NANOS_PER_SEC as int % EXACT_STEP_NS as int == 0 {
            unix_ns
        } else {
            unix_ns - 1
        }),
{
    let packet = before + timestamp_bytes(unix_ns) + after;
    let secs = ntp_seconds(unix_ns);
    let frac = ntp_fraction(unix_ns);
    lemma_exact_fractions(unix_ns % NANOS_PER_SEC as int);
    assert(packet =~= before + be4(secs) + (be4(frac) + after));
    lemma_be4_value(secs, before, be4(frac) + after);
    assert(packet =~= (before + be4(secs)) + be4(frac) + after);
    lemma_be4_value(frac, before + be4(secs), after);
}

/// A later time never gets an earlier timestamp.
pub proof fn law_timestamps_keep_order(earlier: int, later: int)
    requires
        in_ntp_era(earlier),
        in_ntp_era(later),
        earlier <= later,
    ensures
        timestamp_ns(timestamp_bytes(earlier), 0) <= timestamp_ns(timestamp_bytes(later), 0),
{
    let none = Seq::<u8>::empty();
    law_timestamp_round_trip(earlier, none, none);
    law_timestamp_round_trip(later, none, none);
    assert(none + timestamp_bytes(earlier) + none =~= timestamp_bytes(earlier));
    assert(none + timestamp_bytes(later) + none =~= timestamp_bytes(later));
}

proof fn lemma_field(resp: Seq<u8>, at: int, unix_ns: int)
    requires
        0 <= at <= resp.len() - 8,
        in_ntp_era(unix_ns),
        resp.subrange(at, at + 8) == timestamp_bytes(unix_ns),
    ensures
        unix_ns - 1 <= timestamp_ns(resp, at) <= unix_ns,
{
    law_timestamp_round_trip(unix_ns, resp.take(at), resp.skip(at + 8));
    assert(resp =~= resp.take(at) + resp.subrange(at, at + 8) + resp.skip(at + 8));
}

proof fn lemma_resolution(exact: (int, int, int), read: (int, int, int), t4: int)
    requires
        exact.0 - 1 <= read.0 <= exact.0,
        exact.1 - 1 <= read.1 <= exact.1,
        exact.2 - 1 <= read.2 <= exact.2,
    ensures
        -1 <= delay_of(read.0, read.1, read.2, t4) - delay_of(exact.0, exact.1, exact.2, t4) <= 2,
        -1 <= offset_of(read.0, read.1, read.2, t4) - offset_of(exact.0, exact.1, exact.2, t4) <= 1,
{
}

/// A server that answers with correct timestamps yields the delay and the offset of the exchange
/// up to the resolution of the timestamps.
pub proof fn law_sample_matches_exchange(
    resp: Seq<u8>,
    t1: int,
    t2: int,
    t3: int,
    t4: u64,
    sample: NtpSample,
)
    requires
        resp.len() == NTP_PACKET_LEN,
        in_ntp_era(t1),
        in_ntp_era(t2),
        in_ntp_era(t3),
        resp.subrange(24, 32) == timestamp_bytes(t1) || timestamp_ns(resp, 24) == 0,
        resp.subrange(32, 40) == timestamp_bytes(t2),
        resp.subrange(40, 48) == timestamp_bytes(t3),
        is_sample_of(resp, t1, t4, sample),
    ensures
        -1 <= sample.delay_ns - delay_of(t1, t2, t3, t4 as int) <= 2,
        -1 <= sample.offset_ns - offset_of(t1, t2, t3, t4 as int) <= 1,
        t3 - 1 <= sample.remote_time_ns <= t3,
{
    if resp.subrange(24, 32) == timestamp_bytes(t1) {
        lemma_field(resp, 24, t1);
    }
    lemma_field(resp, 32, t2);
    lemma_field(resp, 40, t3);
    lemma_resolution(
        (t1, t2, t3),
        (originate_ns(resp, t1), timestamp_ns(resp, 32), timestamp_ns(resp, 40)),
        t4 as int,
    );
}

/// A timestamp counts whole seconds from 1900 in its first half, up to the last one that fits, and
/// in its second half the fraction of a second, of which there are 2^32, rounded down.
pub proof fn law_timestamps_count_from_1900(unix_ns: int)
    requires
        0 <= unix_ns <= u64::MAX,
    ensures
        ({
            let bytes = timestamp_bytes(unix_ns);
            let secs = unix_ns / 1_000_000_000 + 2_208_988_800;
            let below = unix_ns % 1_000_000_000 * 0x1_0000_0000;
            let frac = be4_value(bytes, 4);
            &&& bytes.len() == 8
            &&& secs < 0x1_0000_0000 ==> be4_value(bytes, 0) == secs
            &&& secs >= 0x1_0000_0000 ==> be4_value(bytes, 0) == 0xffff_ffff
            &&& frac * 1_000_000_000 <= below < (frac + 1) * 1_000_000_000
        }),
{
    let secs = ntp_seconds(unix_ns);
    let frac = ntp_fraction(unix_ns);
    let none = Seq::<u8>::empty();
    lemma_exact_fractions(unix_ns % NANOS_PER_SEC as int);
    assert(timestamp_bytes(unix_ns) =~= none + be4(secs) + be4(frac));
    lemma_be4_value(secs, none, be4(frac));
    assert(timestamp_bytes(unix_ns) =~= be4(secs) + be4(frac) + none);
    lemma_be4_value(frac, be4(secs), none);
}

/// A timestamp is read as the seconds since 1970 and the fraction, rounded down to nanoseconds;
/// only the one with all bytes zero is read as zero.
pub proof fn law_timestamps_are_read_from_1970(s: Seq<u8>, at: int)
    requires
        0 <= at,
        at + 8 <= s.len(),
    ensures
        ({
            let (secs, frac) = (be4_value(s, at), be4_value(s, at + 4));
            let ns = timestamp_ns(s, at) - (secs - 2_208_988_800) * 1_000_000_000;
            &&& secs == 0 && frac == 0 ==> timestamp_ns(s, at) == 0
            &&& secs != 0 || frac != 0 ==> ns * 0x1_0000_0000 <= frac * 1_000_000_000 < (ns + 1)
                * 0x1_0000_0000
            &&& secs == s[at] * 0x100_0000 + s[at + 1] * 0x1_0000 + s[at + 2] * 0x100 + s[at + 3]
            &&& frac == s[at + 4] * 0x100_0000 + s[at + 5] * 0x1_0000 + s[at + 6] * 0x100 + s[at
                + 7]
        }),
{
}

/// A request is the client's mode byte, 39 zero bytes and its sending time.
pub proof fn law_requests_carry_mode_and_time(t1: int)
    requires
        in_ntp_era(t1),
    ensures
        client_packet_bytes(t1).len() == 48,
        client_packet_bytes(t1)[0] == 0x23,
        forall|i: int| 1 <= i < 40 ==> #[trigger] client_packet_bytes(t1)[i] == 0,
        t1 - 1 <= timestamp_ns(client_packet_bytes(t1), 40) <= t1,
{
    let packet = client_packet_bytes(t1);
    assert(CLIENT_MODE == 0x23);
    assert(packet.subrange(40, 48) =~= timestamp_bytes(t1));
    lemma_field(packet, 40, t1);
}

/// A sample holds the time of arrival, the stratum byte, the server's sending time, and the delay
/// and offset of the four times; the client's own sending time is used exactly where the response
/// does not echo one.
pub proof fn law_samples_hold_the_response(resp: Seq<u8>, t1: int, t4: u64, sample: NtpSample)
    requires
        resp.len() >= 48,
        is_sample_of(resp, t1, t4, sample),
    ensures
        ({
            let sent = if timestamp_ns(resp, 24) == 0 {
                t1
            } else {
                timestamp_ns(resp, 24)
            };
            let (t2, t3) = (timestamp_ns(resp, 32), timestamp_ns(resp, 40));
            let both = (t2 - sent) + (t3 - t4);
            &&& sample.timestamp_ns == t4
            &&& sample.stratum == resp[1]
            &&& sample.remote_time_ns == t3
            &&& sample.delay_ns == (t4 - sent) - (t3 - t2)
            &&& both >= 0 ==> both - 1 <= 2 * sample.offset_ns <= both
            &&& both <= 0 ==> both <= 2 * sample.offset_ns <= both + 1
        }),
{
}

} // verus!
