//! Clock readings as nanosecond counts.
use std::time::{Duration, Instant, SystemTime};

use vstd::prelude::*;

verus! {

/// Nanoseconds in one second.
pub const NANOS_PER_SEC: u64 = 1_000_000_000;

/// `std::time::Instant`: a reading of the monotonic clock, opaque to the proofs.
#[verifier::external_type_specification]
#[verifier::external_body]
pub struct ExInstant(Instant);

/// `std::time::SystemTime`: a reading of the wall clock, opaque to the proofs.
#[verifier::external_type_specification]
#[verifier::external_body]
pub struct ExSystemTime(SystemTime);

/// The whole seconds in a `Duration`.
pub uninterp spec fn duration_secs(d: Duration) -> u64;

/// The nanoseconds of a `Duration` beyond its whole seconds.
pub uninterp spec fn duration_subsec_nanos(d: Duration) -> u32;

/// `Duration::as_secs` returns the number of whole seconds.
pub assume_specification[ Duration::as_secs ](d: &Duration) -> (secs: u64)
    ensures
        secs == duration_secs(*d),
;

/// `Duration::subsec_nanos` returns the fractional part, which is always below one second.
pub assume_specification[ Duration::subsec_nanos ](d: &Duration) -> (nanos: u32)
    ensures
        nanos == duration_subsec_nanos(*d),
        nanos < NANOS_PER_SEC,
;

/// The length of a duration in nanoseconds.
pub open spec fn duration_ns(d: Duration) -> int {
    duration_secs(d) * NANOS_PER_SEC + duration_subsec_nanos(d)
}

/// Nanoseconds in `secs` seconds and `subsec_nanos` nanoseconds.
pub fn parts_to_ns(secs: u64, subsec_nanos: u32) -> (ns: u128)
    ensures
        ns == secs * NANOS_PER_SEC + subsec_nanos,
{
    assert(secs * NANOS_PER_SEC <= u64::MAX * NANOS_PER_SEC) by (nonlinear_arith)
        requires
            secs <= u64::MAX,
    ;
    secs as u128 * NANOS_PER_SEC as u128 + subsec_nanos as u128
}

/// Length of a duration in nanoseconds.
pub fn duration_to_ns(d: Duration) -> (ns: u128)
    ensures
        ns == duration_ns(d),
{
    parts_to_ns(d.as_secs(), d.subsec_nanos())
}

/// The time from `earlier` to `later` on the monotonic clock, as `Instant::duration_since` gives it.
pub uninterp spec fn instant_gap(later: Instant, earlier: Instant) -> Duration;

/// The time from the Unix epoch to a wall clock reading, `None` for a reading before the epoch.
pub uninterp spec fn since_unix_epoch(t: SystemTime) -> Option<Duration>;

/// `Instant::now` reads the monotonic clock; nothing is claimed of the reading.
pub assume_specification[ Instant::now ]() -> (now: Instant)
;

/// `Instant::duration_since` returns the time elapsed between two readings, which is zero
/// when both are the same reading.
pub assume_specification[ Instant::duration_since ](later: &Instant, earlier: Instant) -> (d:
    Duration)
    ensures
        d == instant_gap(*later, earlier),
        *later == earlier ==> duration_secs(d) == 0 && duration_subsec_nanos(d) == 0,
;

/// `SystemTime::now` reads the wall clock; nothing is claimed of the reading.
pub assume_specification[ SystemTime::now ]() -> (now: SystemTime)
;

/// What `source` gives when it is asked.
fn draw<A, F: Fn() -> A>(source: F) -> (drawn: A)
    requires
        call_requires(source, ()),
    ensures
        call_ensures(source, (), drawn),
{
    source()
}

/// `SystemTime::duration_since`, applied to the Unix epoch. Its error, which only says that the
/// reading lies before the epoch, is dropped.
#[verifier::external_body]
fn unix_elapsed(t: &SystemTime) -> (d: Option<Duration>)
    ensures
        d == since_unix_epoch(*t),
{
    t.duration_since(SystemTime::UNIX_EPOCH).ok()
}

/// A monotonic clock that counts from its first reading.
pub struct MonotonicClock {
    /// The first reading, once there is one.
    pub start: Option<Instant>,
    /// The last result, zero before the first.
    pub last_ns: u128,
}

impl MonotonicClock {
    /// A clock that has not been read yet.
    pub fn new() -> (clock: Self)
        ensures
            clock.start is None,
            clock.last_ns == 0,
    {
        MonotonicClock { start: None, last_ns: 0 }
    }

    /// What the reading `now` counts: zero for the first one, for a later one the gap from the
    /// first, but never less than the last result.
    pub open spec fn count_at(self, now: Instant) -> int {
        match self.start {
            None => 0,
            Some(start) => if duration_ns(instant_gap(now, start)) >= self.last_ns {
                duration_ns(instant_gap(now, start))
            } else {
                self.last_ns as int
            },
        }
    }

    /// The clock after the reading `now`.
    pub open spec fn after(self, now: Instant) -> Self {
        MonotonicClock {
            start: match self.start {
                None => Some(now),
                Some(start) => Some(start),
            },
            last_ns: self.count_at(now) as u128,
        }
    }
}

impl Default for MonotonicClock {
    fn default() -> (clock: Self)
        ensures
            clock.start is None,
            clock.last_ns == 0,
    {
        MonotonicClock::new()
    }
}

/// Monotonic nanoseconds from the first reading of `clock` to the reading `now`. Where there was
/// no reading before, `now` is the first one. A reading that lies before an earlier one repeats
/// the last result.
pub fn monotonic_ns_at(clock: &mut MonotonicClock, now: Instant) -> (ns: u128)
    ensures
        ns == old(clock).count_at(now),
        *final(clock) == old(clock).after(now),
        old(clock).start is None ==> ns == duration_ns(
            instant_gap(now, final(clock).start->Some_0),
        ),
{
    let start = match clock.start {
        Some(start) => start,
        None => now,
    };
    let gap: u128 = duration_to_ns(now.duration_since(start));
    let ns: u128 = if clock.start.is_some() && gap < clock.last_ns { clock.last_ns } else { gap };
    clock.start = Some(start);
    clock.last_ns = ns;
    ns
}

/// Monotonic nanoseconds since `clock` was first read, as [`monotonic_ns_at`] counts them for a
/// reading taken now. The first result is zero and fixes the origin; every later one is the gap
/// from that origin to the instant that is read, and no result is less than the one before.
pub fn monotonic_ns(clock: &mut MonotonicClock) -> (ns: u128)
    ensures
        old(clock).start is None ==> ns == 0,
        old(clock).start is Some ==> ns >= old(clock).last_ns,
        final(clock).last_ns == ns,
        final(clock).start is Some,
        old(clock).start is Some ==> final(clock).start == old(clock).start,
        exists|now: Instant|
            ns == #[trigger] old(clock).count_at(now) && *final(clock) == old(clock).after(now),
        exists|now: Instant|
            #[trigger] call_ensures(Instant::now, (), now) && ns == old(clock).count_at(now)
                && *final(clock) == old(clock).after(now),
{
    let now = draw(Instant::now);
    monotonic_ns_at(clock, now)
}

/// A clock after these readings, one after another.
pub open spec fn clock_after(clock: MonotonicClock, readings: Seq<Instant>) -> MonotonicClock
    decreases readings.len(),
{
    if readings.len() == 0 {
        clock
    } else {
        clock_after(clock, readings.drop_last()).after(readings.last())
    }
}

/// Whatever a new clock reads, its first result is zero and no later result is less than an
/// earlier one; and the origin is the first reading.
pub proof fn law_monotonic_results_never_fall(
    clock: MonotonicClock,
    readings: Seq<Instant>,
    i: int,
    j: int,
)
    requires
        clock.start is None,
        1 <= i <= j <= readings.len(),
    ensures
        clock_after(clock, readings.take(1)).last_ns == 0,
        clock_after(clock, readings.take(i)).last_ns <= clock_after(
            clock,
            readings.take(j),
        ).last_ns,
        clock_after(clock, readings.take(j)).start == Some(readings[0]),
    decreases j,
{
    let now = readings.take(j);
    if j > 1 {
        assert(now.drop_last() =~= readings.take(j - 1));
        law_monotonic_results_never_fall(
            clock,
            readings,
            if i < j {
                i
            } else {
                j - 1
            },
            j - 1,
        );
    } else {
        assert(now.drop_last() =~= Seq::empty());
        assert(clock_after(clock, now.drop_last()) == clock);
    }
}

/// Nanoseconds since the Unix epoch that a wall clock reading stands for: zero for a reading
/// before the epoch.
pub open spec fn epoch_ns(t: SystemTime) -> int {
    match since_unix_epoch(t) {
        Some(d) => duration_ns(d),
        None => 0,
    }
}

/// The nanosecond count of a wall clock reading taken `elapsed` after the epoch (`None`: before
/// it), or `None` where the count exceeds 64 bits.
pub fn elapsed_to_epoch_ns(elapsed: Option<Duration>) -> (ns: Option<u64>)
    ensures
        elapsed is None ==> ns == Some(0u64),
        elapsed matches Some(d) ==> match ns {
            Some(n) => n == duration_ns(d),
            None => duration_ns(d) > u64::MAX,
        },
{
    match elapsed {
        None => Some(0),
        Some(d) => {
            let ns: u128 = duration_to_ns(d);
            if ns <= u64::MAX as u128 {
                Some(ns as u64)
            } else {
                None
            }
        },
    }
}

/// The wall clock in nanoseconds since the Unix epoch, or `None` where the count exceeds 64 bits.
pub fn wall_clock_ns() -> (ns: Option<u64>)
    ensures
        exists|t: SystemTime|
            match ns {
                Some(n) => n == #[trigger] epoch_ns(t),
                None => epoch_ns(t) > u64::MAX,
            },
        exists|t: SystemTime|
            #[trigger] call_ensures(SystemTime::now, (), t) && match ns {
                Some(n) => n == epoch_ns(t),
                None => epoch_ns(t) > u64::MAX,
            },
{
    let now = draw(SystemTime::now);
    let elapsed = unix_elapsed(&now);
    let ns: Option<u64> = elapsed_to_epoch_ns(elapsed);
    assert(match ns {
        Some(n) => n == epoch_ns(now),
        None => epoch_ns(now) > u64::MAX,
    });
    ns
}

/// A reading that does not lie before the last one counts exactly the seconds and nanoseconds from
/// the first reading to it, and a wall clock reading those since the epoch.
pub proof fn law_readings_count_what_has_passed(
    clock: MonotonicClock,
    start: Instant,
    now: Instant,
    t: SystemTime,
)
    ensures
        ({
            let gap = instant_gap(now, start);
            let passed = duration_secs(gap) * 1_000_000_000 + duration_subsec_nanos(gap);
            clock.start == Some(start) && passed >= clock.last_ns ==> clock.count_at(now) == passed
                && clock.after(now).start == Some(start) && clock.after(now).last_ns == passed
        }),
        clock.start == Some(start) && duration_ns(instant_gap(now, start)) < clock.last_ns
            ==> clock.count_at(now) == clock.last_ns,
        clock.start is None ==> clock.count_at(now) == 0 && clock.after(now).start == Some(now),
        since_unix_epoch(t) matches Some(d) ==> epoch_ns(t) == duration_secs(d) * 1_000_000_000
            + duration_subsec_nanos(d),
        since_unix_epoch(t) is None ==> epoch_ns(t) == 0,
{
}

} // verus!
