//! Reading the best available clock: which clock to ask next, and what its answer means.
use vstd::prelude::*;

use crate::util::NANOS_PER_SEC;

verus! {

/// A clock reading in seconds and nanoseconds.
#[derive(Clone, Copy, Debug, PartialEq, Eq, Structural)]
pub struct ClockReading {
    pub sec: i64,
    pub nsec: i64,
}

/// A signed 64-bit value taken as an unsigned one.
pub open spec fn as_unsigned(x: i64) -> int {
    if x < 0 {
        x + 0x1_0000_0000_0000_0000
    } else {
        x as int
    }
}

impl ClockReading {
    /// The reading in nanoseconds, each part taken as unsigned.
    pub open spec fn ns(self) -> int {
        as_unsigned(self.sec) * NANOS_PER_SEC + as_unsigned(self.nsec)
    }

    /// Whether the reading can be counted in 64 bits of nanoseconds.
    pub fn is_countable(&self) -> (countable: bool)
        ensures
            countable == (self.ns() <= u64::MAX),
    {
        let sec: u64 = to_unsigned(self.sec);
        let nsec: u64 = to_unsigned(self.nsec);
        assert(sec > u64::MAX / NANOS_PER_SEC ==> sec * NANOS_PER_SEC > u64::MAX) by (nonlinear_arith)
            requires
                NANOS_PER_SEC == 1_000_000_000,
        ;
        if sec > u64::MAX / NANOS_PER_SEC {
            return false;
        }
        assert(sec * NANOS_PER_SEC <= u64::MAX) by (nonlinear_arith)
            requires
                sec <= u64::MAX / NANOS_PER_SEC,
                NANOS_PER_SEC == 1_000_000_000,
        ;
        nsec <= u64::MAX - sec * NANOS_PER_SEC
    }
}

fn to_unsigned(x: i64) -> (y: u64)
    ensures
        y == as_unsigned(x),
{
    assert(x < 0 ==> (x as u64) == x + 0x1_0000_0000_0000_0000) by (bit_vector);
    assert(x >= 0 ==> (x as u64) == x) by (bit_vector);
    x as u64
}

/// A clock reading in nanoseconds.
pub fn timespec_to_ns(ts: &ClockReading) -> (ns: u64)
    requires
        ts.ns() <= u64::MAX,
    ensures
        ns == ts.ns(),
{
    let sec: u64 = to_unsigned(ts.sec);
    let nsec: u64 = to_unsigned(ts.nsec);
    assert(sec * NANOS_PER_SEC >= 0) by (nonlinear_arith);
    sec * NANOS_PER_SEC + nsec
}

/// See [`clockid_from_fd`].
pub open spec fn clock_id_of(fd: i32) -> i32 {
    ((!fd) << 3) | 3
}

/// The identifier of the clock behind an open PHC device.
pub fn clockid_from_fd(fd: i32) -> (clock_id: i32)
    ensures
        clock_id == clock_id_of(fd),
        -0x1000_0000 <= fd < 0x1000_0000 ==> clock_id == -8 * fd - 5,
{
    assert(-0x1000_0000 <= fd < 0x1000_0000 ==> ((!fd) << 3) | 3 == -8 * fd - 5) by (bit_vector);
    ((!fd) << 3) | 3
}

/// Different devices get different clocks, and the device can be told from the clock.
pub proof fn law_clock_id_identifies_the_device(fd: i32)
    requires
        -0x1000_0000 <= fd < 0x1000_0000,
    ensures
        !(clock_id_of(fd) >> 3) == fd,
{
    assert(-0x1000_0000 <= fd < 0x1000_0000 ==> !((((!fd) << 3) | 3) >> 3) == fd) by (bit_vector);
}

/// `nix::errno::Errno`: the error of a system call, opaque to the proofs.
#[verifier::external_type_specification]
#[verifier::external_body]
pub struct ExErrno(nix::errno::Errno);

/// `nix::time::clock_gettime` reads the clock with this identifier, in seconds and nanoseconds.
/// Nothing is claimed of the reading, nor of when there is one: both depend on the machine.
#[verifier::external_body]
fn clock_gettime(clock_id: i32) -> (reading: Result<(i64, i64), nix::errno::Errno>) {
    nix::time::clock_gettime(nix::time::ClockId::from_raw(clock_id)).map(
        |ts| (ts.tv_sec(), ts.tv_nsec()),
    )
}

/// `reading` is what reading the clock `clock_id` can come to, `None` for a failure: the system
/// call for that very clock may give the reply that it stands for.
pub closed spec fn clock_shows(clock_id: i32, reading: Option<ClockReading>) -> bool {
    exists|reply: Result<(i64, i64), nix::errno::Errno>| #[trigger]
        call_ensures(clock_gettime, (clock_id,), reply) && reading == reading_spec(reply)
}

/// Hands `clock_id` to `system_call`.
fn ask<F: Fn(i32) -> Result<(i64, i64), nix::errno::Errno>>(system_call: F, clock_id: i32) -> (reply:
    Result<(i64, i64), nix::errno::Errno>)
    requires
        call_requires(system_call, (clock_id,)),
    ensures
        call_ensures(system_call, (clock_id,), reply),
{
    system_call(clock_id)
}

/// Identifier of the system's wall clock.
pub const CLOCK_REALTIME: i32 = 0;

/// Identifier of the system's atomic time clock.
pub const CLOCK_TAI: i32 = 11;

/// Why there is no time.
#[derive(Clone, Copy, Debug, PartialEq, Eq, Structural)]
pub enum ClockError {
    /// The clock could not be read.
    Unreadable,
    /// The reading does not fit in 64 bits of nanoseconds.
    OutOfRange,
}

/// See [`count_reading`].
pub open spec fn count_reading_spec(reading: Option<ClockReading>) -> Result<u64, ClockError> {
    match reading {
        None => Err(ClockError::Unreadable),
        Some(ts) => if ts.ns() <= u64::MAX {
            Ok(ts.ns() as u64)
        } else {
            Err(ClockError::OutOfRange)
        },
    }
}

/// The nanoseconds of a reading, where `None` is a clock that could not be read.
pub fn count_reading(reading: Option<ClockReading>) -> (ns: Result<u64, ClockError>)
    ensures
        ns == count_reading_spec(reading),
{
    match reading {
        None => Err(ClockError::Unreadable),
        Some(ts) => if ts.is_countable() {
            Ok(timespec_to_ns(&ts))
        } else {
            Err(ClockError::OutOfRange)
        },
    }
}

/// See [`reading_of`].
pub open spec fn reading_spec(reply: Result<(i64, i64), nix::errno::Errno>) -> Option<
    ClockReading,
> {
    match reply {
        Ok(ts) => Some(ClockReading { sec: ts.0, nsec: ts.1 }),
        Err(_) => None,
    }
}

/// The reading in the system's reply, its seconds first; `None` for an error.
pub fn reading_of(reply: Result<(i64, i64), nix::errno::Errno>) -> (reading: Option<ClockReading>)
    ensures
        reading == reading_spec(reply),
{
    match reply {
        Ok(ts) => Some(ClockReading { sec: ts.0, nsec: ts.1 }),
        Err(_) => None,
    }
}

/// A clock to read.
#[derive(Clone, Copy, Debug, PartialEq, Eq, Structural)]
pub enum ClockSource {
    /// The PHC, under this identifier.
    Phc(i32),
    /// The clock that stands in for the PHC, under this identifier.
    Fallback(i32),
    /// The system's wall clock.
    Realtime,
}

impl ClockSource {
    /// See [`ClockSource::clock_id`].
    pub open spec fn id(self) -> i32 {
        match self {
            ClockSource::Phc(id) => id,
            ClockSource::Fallback(id) => id,
            ClockSource::Realtime => CLOCK_REALTIME,
        }
    }

    /// The identifier of the clock.
    pub fn clock_id(&self) -> (clock_id: i32)
        ensures
            clock_id == self.id(),
    {
        match *self {
            ClockSource::Phc(id) => id,
            ClockSource::Fallback(id) => id,
            ClockSource::Realtime => CLOCK_REALTIME,
        }
    }

    /// Reads the clock with the identifier [`ClockSource::clock_id`]; [`reading_of`] says what
    /// each reply means. Which reading comes back, if any, is up to the clock.
    fn read(&self) -> (reading: Option<ClockReading>)
        ensures
            clock_shows(self.id(), reading),
    {
        let reply = ask(clock_gettime, self.clock_id());
        reading_of(reply)
    }
}

/// The next step in finding out the time.
#[derive(Clone, Copy, Debug, PartialEq, Eq)]
pub enum NowStep {
    /// Read this clock.
    Read(ClockSource),
    /// This is the time, or why there is none.
    Done(Result<u64, ClockError>),
}

/// See [`fallback_clock_id`].
pub open spec fn fallback_id(linux: bool) -> i32 {
    if linux {
        CLOCK_TAI
    } else {
        CLOCK_REALTIME
    }
}

/// The identifier of the clock that stands in for the PHC: atomic time on Linux, elsewhere the
/// wall clock.
pub fn fallback_clock_id(linux: bool) -> (clock_id: i32)
    ensures
        clock_id == fallback_id(linux),
{
    if linux {
        CLOCK_TAI
    } else {
        CLOCK_REALTIME
    }
}

/// See [`first_now_step`].
pub open spec fn first_step_spec(phc_clock: Option<i32>, linux: bool) -> NowStep {
    match phc_clock {
        Some(id) => NowStep::Read(ClockSource::Phc(id)),
        None => NowStep::Read(ClockSource::Fallback(fallback_id(linux))),
    }
}

/// The first clock to read: the PHC where there is one, otherwise its stand-in.
pub fn first_now_step(phc_clock: Option<i32>, linux: bool) -> (step: NowStep)
    ensures
        step == first_step_spec(phc_clock, linux),
{
    match phc_clock {
        Some(id) => NowStep::Read(ClockSource::Phc(id)),
        None => NowStep::Read(ClockSource::Fallback(fallback_clock_id(linux))),
    }
}

/// See [`next_now_step`].
pub open spec fn next_step_spec(source: ClockSource, reading: Option<ClockReading>) -> NowStep {
    if reading is None && source is Fallback {
        NowStep::Read(ClockSource::Realtime)
    } else {
        NowStep::Done(count_reading_spec(reading))
    }
}

/// What follows from reading the clock `source`, where `None` is a failure: the wall clock steps
/// in for the stand-in, and for nothing else.
pub fn next_now_step(source: ClockSource, reading: Option<ClockReading>) -> (step: NowStep)
    ensures
        step == next_step_spec(source, reading),
{
    if reading.is_none() && matches!(source, ClockSource::Fallback(_)) {
        NowStep::Read(ClockSource::Realtime)
    } else {
        NowStep::Done(count_reading(reading))
    }
}

/// What remains to be done to read the PHC.
#[derive(Clone, Copy, Debug, PartialEq, Eq, Structural)]
pub enum PhcStep {
    /// No device is configured, or the platform has no PHC.
    Unavailable,
    /// The configured device must be opened first.
    OpenDevice,
    /// The clock with this identifier can be read.
    ReadClock(i32),
}

/// The PHC device of a node and what is known of it.
#[derive(Debug)]
pub struct PhcReader {
    /// Path of the configured device.
    pub device: Option<String>,
    /// The node runs on Linux, the one platform with PHC devices.
    pub linux: bool,
    /// Descriptor of the device, once it was opened.
    pub fd: Option<i32>,
    /// A failure to open the device was reported before.
    pub open_warned: bool,
}

impl PhcReader {
    /// A reader for the device at this path, which is not opened yet.
    pub fn new(device: Option<String>, linux: bool) -> (reader: Self)
        ensures
            reader.device == device,
            reader.linux == linux,
            reader.fd is None,
            !reader.open_warned,
    {
        PhcReader { device, linux, fd: None, open_warned: false }
    }

    /// See [`PhcReader::next_step`].
    pub open spec fn step(self) -> PhcStep {
        if self.device is None || !self.linux {
            PhcStep::Unavailable
        } else {
            match self.fd {
                None => PhcStep::OpenDevice,
                Some(fd) => PhcStep::ReadClock(clock_id_of(fd)),
            }
        }
    }

    /// What remains to be done to read the PHC.
    pub fn next_step(&self) -> (step: PhcStep)
        ensures
            step == self.step(),
    {
        if self.device.is_none() || !self.linux {
            return PhcStep::Unavailable;
        }
        match self.fd {
            None => PhcStep::OpenDevice,
            Some(fd) => PhcStep::ReadClock(clockid_from_fd(fd)),
        }
    }

    /// Notes that the device was opened; it is not opened again.
    pub fn device_opened(&mut self, fd: i32)
        ensures
            *final(self) == (PhcReader { fd: Some(fd), ..*old(self) }),
    {
        self.fd = Some(fd);
    }

    /// Notes that the device could not be opened, and tells whether to report it: only the first
    /// failure is reported.
    pub fn open_failed(&mut self) -> (report: bool)
        ensures
            report == !old(self).open_warned,
            *final(self) == (PhcReader { open_warned: true, ..*old(self) }),
    {
        let report: bool = !self.open_warned;
        self.open_warned = true;
        report
    }

    /// See [`PhcReader::phc_clock_id`].
    pub open spec fn clock_id(self) -> Option<i32> {
        match self.step() {
            PhcStep::ReadClock(id) => Some(id),
            _ => None,
        }
    }

    /// The identifier of the PHC, if its device is open.
    pub fn phc_clock_id(&self) -> (id: Option<i32>)
        ensures
            id == self.clock_id(),
    {
        match self.next_step() {
            PhcStep::ReadClock(id) => Some(id),
            _ => None,
        }
    }

    /// The time in nanoseconds by the best clock there is: the PHC if its device is open,
    /// otherwise its stand-in or else the wall clock. [`first_now_step`] and [`next_now_step`] say
    /// which clock is read and what its reading means.
    pub fn now_ns(&self) -> (now: Result<u64, ClockError>)
        ensures
            exists|source: ClockSource, reading: Option<ClockReading>|
                {
                    &&& #[trigger] next_step_spec(source, reading) == NowStep::Done(now)
                    &&& match self.clock_id() {
                        Some(id) => source == ClockSource::Phc(id),
                        None => source == ClockSource::Fallback(fallback_id(self.linux))
                            || source is Realtime,
                    }
                },
            match self.clock_id() {
                Some(id) => exists|reading: Option<ClockReading>|
                    #[trigger] clock_shows(id, reading) && now == count_reading_spec(reading),
                None => {
                    ||| exists|reading: Option<ClockReading>|
                        {
                            &&& #[trigger] clock_shows(fallback_id(self.linux), reading)
                            &&& reading is Some
                            &&& now == count_reading_spec(reading)
                        }
                    ||| clock_shows(fallback_id(self.linux), None) && exists|
                        reading: Option<ClockReading>,
                    |
                        #[trigger] clock_shows(CLOCK_REALTIME, reading) && now
                            == count_reading_spec(reading)
                },
            },
    {
        let first: NowStep = first_now_step(self.phc_clock_id(), self.linux);
        let source: ClockSource = match first {
            NowStep::Read(source) => source,
            NowStep::Done(now) => {
                return now;
            },
        };
        let reading: Option<ClockReading> = source.read();
        match next_now_step(source, reading) {
            NowStep::Done(now) => {
                assert(next_step_spec(source, reading) == NowStep::Done(now));
                now
            },
            NowStep::Read(last) => {
                let reading: Option<ClockReading> = last.read();
                assert(next_step_spec(last, reading) == NowStep::Done(count_reading_spec(reading)));
                count_reading(reading)
            },
        }
    }

    /// The wall clock in nanoseconds.
    pub fn system_now_ns(&self) -> (now: Result<u64, ClockError>)
        ensures
            exists|reading: Option<ClockReading>| now == #[trigger] count_reading_spec(reading),
            exists|reading: Option<ClockReading>|
                #[trigger] clock_shows(CLOCK_REALTIME, reading) && now == count_reading_spec(reading),
    {
        let reading: Option<ClockReading> = ClockSource::Realtime.read();
        assert(count_reading_spec(reading) == count_reading_spec(reading));
        count_reading(reading)
    }

    /// The PHC in nanoseconds, or `None` as long as its device is not open.
    pub fn phc_now_ns(&self) -> (now: Result<Option<u64>, ClockError>)
        ensures
            self.clock_id() is None ==> now == Ok::<Option<u64>, ClockError>(None),
            self.clock_id() is Some ==> exists|reading: Option<ClockReading>|
                now == (match #[trigger] count_reading_spec(reading) {
                    Ok(ns) => Ok(Some(ns)),
                    Err(error) => Err(error),
                }),
            self.clock_id() is Some ==> exists|reading: Option<ClockReading>|
                #[trigger] clock_shows(self.clock_id()->Some_0, reading) && now == (
                match count_reading_spec(reading) {
                    Ok(ns) => Ok(Some(ns)),
                    Err(error) => Err(error),
                }),
    {
        match self.phc_clock_id() {
            None => Ok(None),
            Some(id) => {
                let reading: Option<ClockReading> = ClockSource::Phc(id).read();
                assert(count_reading_spec(reading) == count_reading_spec(reading));
                match count_reading(reading) {
                    Ok(ns) => Ok(Some(ns)),
                    Err(error) => Err(error),
                }
            },
        }
    }

    /// How many nanoseconds the PHC is ahead of the wall clock, or `None` as long as its device
    /// is not open.
    pub fn phc_system_offset(&self) -> (offset: Result<Option<i128>, ClockError>)
        ensures
            self.clock_id() is None ==> offset == Ok::<Option<i128>, ClockError>(None),
            self.clock_id() is Some ==> exists|
                phc: Result<u64, ClockError>,
                system: Result<u64, ClockError>,
            |
                offset == (match #[trigger] offset_spec(phc, system) {
                    Ok(ns) => Ok(Some(ns)),
                    Err(error) => Err(error),
                }),
            self.clock_id() is Some ==> exists|
                phc: Option<ClockReading>,
                system: Option<ClockReading>,
            |
                {
                    &&& #[trigger] clock_shows(self.clock_id()->Some_0, phc)
                    &&& #[trigger] clock_shows(CLOCK_REALTIME, system)
                    &&& offset_of_readings(phc, system, offset)
                },
    {
        let phc: Result<u64, ClockError> = match self.phc_now_ns() {
            Ok(None) => {
                return Ok(None);
            },
            Ok(Some(ns)) => Ok(ns),
            Err(error) => Err(error),
        };
        let system: Result<u64, ClockError> = self.system_now_ns();
        assert(offset_spec(phc, system) == offset_spec(phc, system));
        match offset_between(phc, system) {
            Ok(ns) => Ok(Some(ns)),
            Err(error) => Err(error),
        }
    }
}

/// `offset` is how far a PHC that shows `phc` is ahead of a wall clock that shows `system`: the
/// difference of the two where both can be counted, otherwise why the first of them cannot.
pub open spec fn offset_of_readings(
    phc: Option<ClockReading>,
    system: Option<ClockReading>,
    offset: Result<Option<i128>, ClockError>,
) -> bool {
    match offset {
        Ok(None) => false,
        Ok(Some(ns)) => {
            &&& phc is Some && 0 <= phc->Some_0.ns() <= u64::MAX
            &&& system is Some && 0 <= system->Some_0.ns() <= u64::MAX
            &&& system->Some_0.ns() + ns == phc->Some_0.ns()
        },
        Err(error) => {
            ||| count_reading_spec(phc) == Err::<u64, ClockError>(error)
            ||| count_reading_spec(phc) is Ok && count_reading_spec(system) == Err::<
                u64,
                ClockError,
            >(error)
        },
    }
}

/// See [`offset_between`].
pub open spec fn offset_spec(
    phc: Result<u64, ClockError>,
    system: Result<u64, ClockError>,
) -> Result<i128, ClockError> {
    match (phc, system) {
        (Err(error), _) => Err(error),
        (_, Err(error)) => Err(error),
        (Ok(phc_ns), Ok(system_ns)) => Ok((phc_ns - system_ns) as i128),
    }
}

/// How many nanoseconds the time `phc` is ahead of the time `system`, where there are both.
pub fn offset_between(
    phc: Result<u64, ClockError>,
    system: Result<u64, ClockError>,
) -> (offset: Result<i128, ClockError>)
    ensures
        offset == offset_spec(phc, system),
{
    let phc_ns: u64 = match phc {
        Ok(ns) => ns,
        Err(error) => {
            return Err(error);
        },
    };
    match system {
        Ok(system_ns) => Ok(phc_ns as i128 - system_ns as i128),
        Err(error) => Err(error),
    }
}

/// With the device open, the PHC is the only clock that is asked for the time.
pub proof fn law_phc_is_preferred(reader: PhcReader, reading: Option<ClockReading>)
    requires
        reader.clock_id() is Some,
    ensures
        reader.linux,
        first_step_spec(reader.clock_id(), reader.linux) == NowStep::Read(
            ClockSource::Phc(reader.clock_id()->Some_0),
        ),
        next_step_spec(ClockSource::Phc(reader.clock_id()->Some_0), reading) == NowStep::Done(
            count_reading_spec(reading),
        ),
{
}

/// Without a PHC the time comes from the stand-in, or from the wall clock where the stand-in
/// cannot be read; no third clock is asked.
pub proof fn law_wall_clock_is_the_last_resort(
    linux: bool,
    fallback: Option<ClockReading>,
    realtime: Option<ClockReading>,
)
    ensures
        ({
            let stand_in = ClockSource::Fallback(fallback_id(linux));
            &&& first_step_spec(None, linux) == NowStep::Read(stand_in)
            &&& fallback is Some ==> next_step_spec(stand_in, fallback) == NowStep::Done(
                count_reading_spec(fallback),
            )
            &&& fallback is None ==> next_step_spec(stand_in, fallback) == NowStep::Read(
                ClockSource::Realtime,
            )
        }),
        next_step_spec(ClockSource::Realtime, realtime) == NowStep::Done(
            count_reading_spec(realtime),
        ),
{
}

/// Outside Linux no PHC is opened or read, whatever is configured, and the wall clock stands in.
pub proof fn law_other_platforms_use_the_wall_clock(reader: PhcReader)
    requires
        !reader.linux,
    ensures
        reader.step() == PhcStep::Unavailable,
        first_step_spec(reader.clock_id(), reader.linux) == NowStep::Read(
            ClockSource::Fallback(CLOCK_REALTIME),
        ),
{
}

/// A reading counts its seconds and its nanoseconds, and counts no more than once: a later reading
/// counts more by exactly the time that passed. What cannot be counted is an error, and nothing
/// else is.
pub proof fn law_readings_count_nanoseconds(sec: i64, nsec: i64, later: ClockReading)
    requires
        sec >= 0,
        nsec >= 0,
        later.sec >= 0,
        later.nsec >= 0,
    ensures
        ({
            let reading = ClockReading { sec, nsec };
            &&& sec * 1_000_000_000 + nsec <= u64::MAX ==> count_reading_spec(Some(reading)) == Ok::<
                u64,
                ClockError,
            >((sec * 1_000_000_000 + nsec) as u64)
            &&& sec * 1_000_000_000 + nsec > u64::MAX ==> count_reading_spec(Some(reading)) == Err::<
                u64,
                ClockError,
            >(ClockError::OutOfRange)
            &&& count_reading_spec(None) == Err::<u64, ClockError>(ClockError::Unreadable)
            &&& later.ns() - reading.ns() == (later.sec - sec) * 1_000_000_000 + (later.nsec - nsec)
        }),
{
}

/// A reply is read as it is, seconds and nanoseconds in their places, and an error as no reading;
/// a time before the epoch cannot be counted.
pub proof fn law_replies_are_read_as_they_are(
    sec: i64,
    nsec: i64,
    reply: Result<(i64, i64), nix::errno::Errno>,
)
    ensures
        reading_spec(Ok((sec, nsec))) == Some(ClockReading { sec, nsec }),
        reply is Err ==> reading_spec(reply) is None,
        sec < 0 ==> count_reading_spec(Some(ClockReading { sec, nsec })) == Err::<u64, ClockError>(
            ClockError::OutOfRange,
        ),
{
}

/// The offset between two times is what must be added to the system's time to get the PHC's; it
/// changes its sign with the roles of the clocks, and an error of either clock is kept.
pub proof fn law_offset_leads_from_system_to_phc(phc: u64, system: u64, error: ClockError)
    ensures
        ({
            let offset = offset_spec(Ok(phc), Ok(system));
            let back = offset_spec(Ok(system), Ok(phc));
            &&& offset is Ok && system + offset->Ok_0 == phc
            &&& back is Ok && back->Ok_0 == -offset->Ok_0
            &&& offset_spec(Err(error), Ok(system)) == Err::<i128, ClockError>(error)
            &&& offset_spec(Ok(phc), Err(error)) == Err::<i128, ClockError>(error)
        }),
{
}

/// Where the PHC and the wall clock show these readings, the offset that is found is the time that
/// the PHC counts beyond the wall clock; none is found where a clock cannot be read.
pub proof fn law_found_offset_is_phc_minus_system(
    phc: ClockReading,
    system: ClockReading,
    ns: i128,
    other: Option<ClockReading>,
)
    ensures
        offset_of_readings(Some(phc), Some(system), Ok(Some(ns))) ==> ns == phc.ns() - system.ns(),
        0 <= phc.ns() <= u64::MAX && 0 <= system.ns() <= u64::MAX && ns == phc.ns() - system.ns()
            ==> offset_of_readings(Some(phc), Some(system), Ok(Some(ns))),
        !offset_of_readings(None, other, Ok(Some(ns))),
        !offset_of_readings(other, None, Ok(Some(ns))),
        !offset_of_readings(Some(phc), other, Ok(None)),
{
}

/// What a reader does follows its device: without one, or outside Linux, it does nothing; a device
/// that is not open is opened; and of an open one the clock is read that its descriptor stands for.
pub proof fn law_reader_follows_its_device(reader: PhcReader, fd: i32)
    requires
        0 <= fd < 0x1000_0000,
    ensures
        reader.device is None || !reader.linux ==> reader.step() == PhcStep::Unavailable
            && reader.clock_id() is None,
        reader.device is Some && reader.linux && reader.fd is None ==> reader.step()
            == PhcStep::OpenDevice && reader.clock_id() is None,
        reader.device is Some && reader.linux && reader.fd == Some(fd) ==> reader.step()
            == PhcStep::ReadClock((-8 * fd - 5) as i32) && reader.clock_id() == Some(
            (-8 * fd - 5) as i32,
        ),
{
    assert(0 <= fd < 0x1000_0000 ==> ((!fd) << 3) | 3 == -8 * fd - 5) by (bit_vector);
}

} // verus!
