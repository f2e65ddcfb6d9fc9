//! Spans and points of time, held as whole nanoseconds.

use vstd::prelude::*;

verus! {

/// Nanoseconds in one second.
pub const NANOS_PER_SEC: u64 = 1_000_000_000;

/// The longest span a [`Duration`] holds, in nanoseconds.
pub open spec fn max_nanos() -> int {
    u64::MAX * NANOS_PER_SEC + (NANOS_PER_SEC - 1)
}

/// A span of time with nanosecond resolution.
#[derive(Clone, Copy, Debug, PartialEq, Eq, Structural)]
pub struct Duration {
    secs: u64,
    nanos: u32,
}

impl View for Duration {
    type V = nat;

    /// The whole span in nanoseconds.
    closed spec fn view(&self) -> nat {
        (self.secs * NANOS_PER_SEC + self.nanos) as nat
    }
}

impl Duration {
    #[verifier::type_invariant]
    spec fn nanos_below_one_second(self) -> bool {
        self.nanos < NANOS_PER_SEC
    }

    /// A span of `secs` seconds and `nanos` nanoseconds, `nanos` being less than a second.
    pub fn new(secs: u64, nanos: u32) -> (d: Duration)
        requires
            nanos < NANOS_PER_SEC,
        ensures
            d@ == secs * NANOS_PER_SEC + nanos,
            d@ <= max_nanos(),
        opens_invariants none
    {
        Duration { secs, nanos }
    }

    /// A span of whole seconds.
    pub fn from_secs(secs: u64) -> (d: Duration)
        ensures
            d@ == secs * NANOS_PER_SEC,
        opens_invariants none
    {
        Duration { secs, nanos: 0 }
    }

    /// A span of whole milliseconds.
    pub fn from_millis(millis: u64) -> (d: Duration)
        ensures
            d@ == millis * 1_000_000,
        opens_invariants none
    {
        let rest: u32 = (millis % 1_000) as u32;
        Duration { secs: millis / 1_000, nanos: rest * 1_000_000 }
    }

    /// The span of `nanos` nanoseconds.
    fn from_total(nanos: u128) -> (d: Duration)
        requires
            nanos <= max_nanos(),
        ensures
            d@ == nanos,
        opens_invariants none
    {
        let per_sec: u128 = NANOS_PER_SEC as u128;
        Duration { secs: (nanos / per_sec) as u64, nanos: (nanos % per_sec) as u32 }
    }

    /// The whole seconds in the span.
    pub fn as_secs(&self) -> (secs: u64)
        ensures
            secs == self@ / (NANOS_PER_SEC as nat),
        opens_invariants none
    {
        proof {
            use_type_invariant(self);
        }
        self.secs
    }

    /// What is left of the span after its whole seconds, in nanoseconds.
    pub fn subsec_nanos(&self) -> (nanos: u32)
        ensures
            nanos == self@ % (NANOS_PER_SEC as nat),
            nanos < NANOS_PER_SEC,
        opens_invariants none
    {
        proof {
            use_type_invariant(self);
        }
        self.nanos
    }

    /// The whole span in nanoseconds.
    pub fn as_nanos(&self) -> (nanos: u128)
        ensures
            nanos == self@,
            nanos <= max_nanos(),
        opens_invariants none
    {
        proof {
            use_type_invariant(self);
        }
        let per_sec: u128 = NANOS_PER_SEC as u128;
        self.secs as u128 * per_sec + self.nanos as u128
    }
}

/// A point on a monotonic clock, counted from the clock's origin.
///
/// Only instants of one [`Clock`] can be compared.
#[derive(Clone, Copy, Debug, PartialEq, Eq, Structural)]
pub struct Instant {
    since_origin: Duration,
}

impl View for Instant {
    type V = nat;

    /// Nanoseconds since the clock's origin.
    closed spec fn view(&self) -> nat {
        self.since_origin@
    }
}

/// The nanoseconds from `earlier` to `later`, or zero if `earlier` is the later of the two.
pub open spec fn elapsed(later: nat, earlier: nat) -> nat {
    if later >= earlier {
        (later - earlier) as nat
    } else {
        0
    }
}

impl Instant {
    /// The instant `since_origin` after the clock's origin.
    pub fn at(since_origin: Duration) -> (i: Instant)
        ensures
            i@ == since_origin@,
        opens_invariants none
    {
        Instant { since_origin }
    }

    /// The time from `earlier` to this instant, or zero if `earlier` is the later of the two.
    pub fn saturating_duration_since(&self, earlier: Instant) -> (d: Duration)
        ensures
            d@ == elapsed(self@, earlier@),
            d@ <= max_nanos(),
        opens_invariants none
    {
        let later: u128 = self.since_origin.as_nanos();
        let start: u128 = earlier.since_origin.as_nanos();
        if later >= start {
            Duration::from_total(later - start)
        } else {
            Duration::from_secs(0)
        }
    }
}

/// An instant is not much further from its clock's origin than a [`Duration`] is long.
pub proof fn lemma_instants_are_in_range(i: Instant)
    ensures
        i@ <= 2 * max_nanos(),
{
}

/// An instant of the system's monotonic clock, `std::time::Instant`, declared as opaque.
#[verifier::external_type_specification]
#[verifier::external_body]
pub struct ExInstant(std::time::Instant);

/// A monotonic clock.
#[derive(Clone, Copy, Debug)]
pub struct Clock {
    origin: std::time::Instant,
}

/// Calls `std::time::Instant::now`; nothing is claimed of the instant it returns.
#[verifier::external_body]
pub(crate) fn monotonic_now() -> (now: std::time::Instant) {
    std::time::Instant::now()
}

/// Calls `std::time::Instant::elapsed` and returns the span as seconds and nanoseconds.
///
/// Claimed of it: the nanoseconds are less than a second.
#[verifier::external_body]
pub(crate) fn elapsed_since(origin: &std::time::Instant) -> (span: (u64, u32))
    ensures
        span.1 < NANOS_PER_SEC,
    opens_invariants none
{
    let span = origin.elapsed();
    (span.as_secs(), span.subsec_nanos())
}

/// Whether `instant` is what [`monotonic_now`] may give.
pub closed spec fn is_monotonic_reading(instant: std::time::Instant) -> bool {
    call_ensures(monotonic_now, (), instant)
}

impl Clock {
    /// A clock whose origin is the present.
    pub fn start() -> (clock: Clock)
        ensures
            is_monotonic_reading(clock.origin()),
    {
        Clock { origin: monotonic_now() }
    }

    /// A clock that was started counts from an instant that [`monotonic_now`] gave.
    pub(crate) proof fn law_counts_from_a_reading(self)
        ensures
            is_monotonic_reading(self.origin()) <==> call_ensures(
                monotonic_now,
                (),
                self.origin(),
            ),
    {
    }

    /// A clock whose origin is `origin`.
    pub fn with_origin(origin: std::time::Instant) -> (clock: Clock)
        ensures
            clock.origin() == origin,
    {
        Clock { origin }
    }

    /// The instant from which the clock counts.
    pub closed spec fn origin(self) -> std::time::Instant {
        self.origin
    }

    /// Whether the clock may show `now`: it is what [`elapsed_since`] gives for its origin.
    pub closed spec fn may_show(self, now: nat) -> bool {
        exists|span: (u64, u32)| #[trigger]
            call_ensures(elapsed_since, (&self.origin,), span) && now == span.0 * NANOS_PER_SEC
                + span.1
    }

    /// What the clock shows is the whole span since its origin: the seconds and the nanoseconds
    /// that [`elapsed_since`] gives, and nothing else.
    pub(crate) proof fn law_shows_whole_span(self, now: nat)
        ensures
            self.may_show(now) <==> exists|span: (u64, u32)| #[trigger]
                call_ensures(elapsed_since, (&self.origin(),), span) && now == span.0
                    * 1_000_000_000 + span.1,
    {
        if self.may_show(now) {
            let span = choose|span: (u64, u32)| #[trigger]
                call_ensures(elapsed_since, (&self.origin,), span) && now == span.0 * NANOS_PER_SEC
                    + span.1;
            assert(call_ensures(elapsed_since, (&self.origin(),), span));
        }
        if exists|span: (u64, u32)| #[trigger]
            call_ensures(elapsed_since, (&self.origin(),), span) && now == span.0 * 1_000_000_000
                + span.1 {
            let span = choose|span: (u64, u32)| #[trigger]
                call_ensures(elapsed_since, (&self.origin(),), span) && now == span.0
                    * 1_000_000_000 + span.1;
            assert(call_ensures(elapsed_since, (&self.origin,), span));
        }
    }

    /// The present instant.
    pub fn now(&self) -> (now: Instant)
        ensures
            self.may_show(now@),
            now@ <= max_nanos(),
        opens_invariants none
    {
        let (secs, nanos): (u64, u32) = elapsed_since(&self.origin);
        Instant::at(Duration::new(secs, nanos))
    }
}

/// A point in civil time, in nanoseconds from the Unix epoch, negative before it.
#[derive(Clone, Copy, Debug, PartialEq, Eq, Structural)]
pub struct Timestamp {
    pub nanos: i128,
}

/// A time of the system's civil clock, `std::time::SystemTime`, declared as opaque.
#[verifier::external_type_specification]
#[verifier::external_body]
pub struct ExSystemTime(std::time::SystemTime);

/// Calls `std::time::SystemTime::now`; nothing is claimed of the time it returns.
#[verifier::external_body]
pub(crate) fn system_now() -> (now: std::time::SystemTime)
    opens_invariants none
{
    std::time::SystemTime::now()
}

/// Calls `std::time::SystemTime::duration_since` on `time` and the Unix epoch, and returns how far
/// they are apart as seconds and nanoseconds: `Ok` after the epoch and `Err` before it.
///
/// Claimed of it: the nanoseconds are less than a second.
#[verifier::external_body]
pub(crate) fn since_epoch(time: &std::time::SystemTime) -> (reading: Result<(u64, u32), (u64, u32)>)
    ensures
        reading matches Ok(span) ==> span.1 < NANOS_PER_SEC,
        reading matches Err(span) ==> span.1 < NANOS_PER_SEC,
    opens_invariants none
{
    match time.duration_since(std::time::UNIX_EPOCH) {
        Ok(after) => Ok((after.as_secs(), after.subsec_nanos())),
        Err(e) => Err((e.duration().as_secs(), e.duration().subsec_nanos())),
    }
}

/// The nanoseconds from the Unix epoch that a reading of [`since_epoch`] tells.
pub open spec fn epoch_nanos(reading: Result<(u64, u32), (u64, u32)>) -> int {
    match reading {
        Ok(span) => span.0 * NANOS_PER_SEC + span.1,
        Err(span) => -(span.0 * NANOS_PER_SEC + span.1),
    }
}

/// Whether `time` is `nanos` nanoseconds from the Unix epoch, as [`since_epoch`] tells.
pub closed spec fn reads_as(time: std::time::SystemTime, nanos: int) -> bool {
    exists|reading: Result<(u64, u32), (u64, u32)>| #[trigger]
        call_ensures(since_epoch, (&time,), reading) && nanos == epoch_nanos(reading)
}

/// Whether the civil clock may show the time `nanos` nanoseconds from the Unix epoch: it is what
/// [`since_epoch`] tells of what [`system_now`] gives.
pub closed spec fn civil_clock_may_show(nanos: int) -> bool {
    exists|time: std::time::SystemTime| #[trigger]
        call_ensures(system_now, (), time) && reads_as(time, nanos)
}

/// How far a time of the civil clock is from the Unix epoch is what [`since_epoch`] tells of it:
/// the seconds and the nanoseconds together, negative before the epoch.
pub(crate) proof fn law_times_are_read_whole(time: std::time::SystemTime, nanos: int)
    ensures
        reads_as(time, nanos) <==> exists|reading: Result<(u64, u32), (u64, u32)>|
            {
                &&& #[trigger] call_ensures(since_epoch, (&time,), reading)
                &&& reading matches Ok(span) ==> nanos == span.0 * 1_000_000_000 + span.1
                &&& reading matches Err(span) ==> nanos == -(span.0 * 1_000_000_000 + span.1)
            },
{
    if reads_as(time, nanos) {
        let reading = choose|reading: Result<(u64, u32), (u64, u32)>| #[trigger]
            call_ensures(since_epoch, (&time,), reading) && nanos == epoch_nanos(reading);
        assert(call_ensures(since_epoch, (&time,), reading));
    }
}

/// What the civil clock shows is what is read of a time that [`system_now`] gave.
pub(crate) proof fn law_civil_clock_is_read(nanos: int)
    ensures
        civil_clock_may_show(nanos) <==> exists|time: std::time::SystemTime| #[trigger]
            call_ensures(system_now, (), time) && reads_as(time, nanos),
{
}

/// What a clock shows is in the range of a [`Duration`], and so is the distance from the Unix epoch
/// that the civil clock shows.
pub proof fn law_readings_are_in_range(clock: Clock, now: nat, civil: int)
    ensures
        clock.may_show(now) ==> now <= max_nanos(),
        civil_clock_may_show(civil) ==> -max_nanos() <= civil <= max_nanos(),
{
}

/// A time of the system's civil clock, with how far it is from the Unix epoch.
#[derive(Clone, Copy, Debug)]
pub struct SystemTimestamp {
    pub(crate) time: std::time::SystemTime,
    stamp: Timestamp,
}

impl View for SystemTimestamp {
    type V = int;

    /// Nanoseconds from the Unix epoch.
    closed spec fn view(&self) -> int {
        self.stamp.nanos as int
    }
}

impl SystemTimestamp {
    #[verifier::type_invariant]
    spec fn stamp_is_of_time(self) -> bool {
        reads_as(self.time, self.stamp.nanos as int)
    }

    /// The time as the system holds it.
    pub closed spec fn time(self) -> std::time::SystemTime {
        self.time
    }

    /// The given time.
    pub fn of(time: std::time::SystemTime) -> (t: SystemTimestamp)
        ensures
            t.time() == time,
            reads_as(time, t@),
            -max_nanos() <= t@ <= max_nanos(),
        opens_invariants none
    {
        let reading = since_epoch(&time);
        let stamp = Timestamp::from_epoch(reading);
        SystemTimestamp { time, stamp }
    }

    /// The present time.
    pub fn now() -> (now: SystemTimestamp)
        ensures
            civil_clock_may_show(now@),
            -max_nanos() <= now@ <= max_nanos(),
        opens_invariants none
    {
        SystemTimestamp::of(system_now())
    }

    /// How far the time is from the Unix epoch.
    pub fn timestamp(&self) -> (t: Timestamp)
        ensures
            t.nanos == self@,
        opens_invariants none
    {
        self.stamp
    }
}

impl Timestamp {
    /// The present time.
    pub fn now() -> (now: Timestamp)
        ensures
            civil_clock_may_show(now.nanos as int),
            -max_nanos() <= now.nanos <= max_nanos(),
        opens_invariants none
    {
        SystemTimestamp::now().timestamp()
    }

    /// The time that is this far from the Unix epoch, in seconds and nanoseconds: `Ok` for a time
    /// after the epoch and `Err` for one before it.
    pub fn from_epoch(reading: Result<(u64, u32), (u64, u32)>) -> (t: Timestamp)
        requires
            reading matches Ok(span) ==> span.1 < NANOS_PER_SEC,
            reading matches Err(span) ==> span.1 < NANOS_PER_SEC,
        ensures
            t.nanos == epoch_nanos(reading),
        opens_invariants none
    {
        match reading {
            Ok(after) => Timestamp { nanos: Duration::new(after.0, after.1).as_nanos() as i128 },
            Err(before) => Timestamp {
                nanos: -(Duration::new(before.0, before.1).as_nanos() as i128),
            },
        }
    }

    /// The time `d` before this one.
    pub fn minus(&self, d: Duration) -> (t: Timestamp)
        requires
            self.nanos - d@ >= i128::MIN,
        ensures
            t.nanos == self.nanos - d@,
        opens_invariants none
    {
        Timestamp { nanos: self.nanos - d.as_nanos() as i128 }
    }

    /// The time from `earlier` to this one, if it is not negative and a `Duration` can hold it.
    pub fn duration_since(&self, earlier: Timestamp) -> (d: Option<Duration>)
        ensures
            d is Some <==> 0 <= self.nanos - earlier.nanos <= max_nanos(),
            d matches Some(d) ==> d@ == self.nanos - earlier.nanos,
    {
        match self.nanos.checked_sub(earlier.nanos) {
            Some(span) => if 0 <= span && span <= 18_446_744_073_709_551_615_999_999_999i128 {
                Some(Duration::from_total(span as u128))
            } else {
                None
            },
            None => None,
        }
    }
}

/// Returns a `Duration` as a number of nanoseconds, for spans that `u64` can count.
pub fn nanos(d: Duration) -> (n: u64)
    requires
        d@ <= u64::MAX,
    ensures
        n == d@,
{
    d.as_secs() * NANOS_PER_SEC + (d.subsec_nanos() as u64)
}

} // verus!
