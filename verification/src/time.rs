//! Instants and durations as the reactor sees them: whole nanoseconds.
use vstd::prelude::*;

verus! {

/// Nanoseconds in one second.
pub const NANOS_PER_SEC: u128 = 1_000_000_000;

/// Nanoseconds in one millisecond.
pub const NANOS_PER_MILLI: u128 = 1_000_000;

/// Nanoseconds in one microsecond.
pub const NANOS_PER_MICRO: u128 = 1_000;

/// Nanoseconds in the longest duration: `u64::MAX` seconds and 999,999,999 nanoseconds.
pub const MAX_DURATION_NANOS: u128 = 18_446_744_073_709_551_615_999_999_999;

/// Nanoseconds from the clock's origin to the last instant it can represent: `i64::MAX` seconds
/// and 999,999,999 nanoseconds.
pub const MAX_INSTANT_NANOS: u128 = 9_223_372_036_854_775_807_999_999_999;

/// A span of time.
#[derive(Clone, Copy, Debug, PartialEq, Eq, Structural)]
pub struct Duration {
    /// Length of the span in nanoseconds.
    pub nanos: u128,
}

/// A moment of a monotonic clock.
#[derive(Clone, Copy, Debug, PartialEq, Eq, Structural)]
pub struct Instant {
    /// Nanoseconds since the origin of the clock.
    pub nanos: u128,
}

/// The longest duration there is.
pub fn duration_max() -> (max: Duration)
    ensures
        max.nanos == u64::MAX * 1_000_000_000 + (1_000_000_000 - 1),
        max.nanos == MAX_DURATION_NANOS,
{
    Duration { nanos: MAX_DURATION_NANOS }
}

impl Duration {
    /// Whether the duration is no longer than the longest one.
    pub open spec fn valid(self) -> bool {
        self.nanos <= MAX_DURATION_NANOS
    }

    /// A duration of whole seconds.
    pub fn from_secs(secs: u64) -> (duration: Duration)
        ensures
            duration.nanos == secs * 1_000_000_000,
            duration.valid(),
    {
        Duration { nanos: secs as u128 * NANOS_PER_SEC }
    }

    /// A duration of whole milliseconds.
    pub fn from_millis(millis: u64) -> (duration: Duration)
        ensures
            duration.nanos == millis * 1_000_000,
            duration.valid(),
    {
        Duration { nanos: millis as u128 * NANOS_PER_MILLI }
    }

    /// A duration of whole microseconds.
    pub fn from_micros(micros: u64) -> (duration: Duration)
        ensures
            duration.nanos == micros * 1_000,
            duration.valid(),
    {
        Duration { nanos: micros as u128 * NANOS_PER_MICRO }
    }

    /// A duration of whole nanoseconds.
    pub fn from_nanos(nanos: u64) -> (duration: Duration)
        ensures
            duration.nanos == nanos,
            duration.valid(),
    {
        Duration { nanos: nanos as u128 }
    }

    /// The number of whole milliseconds in the duration.
    pub fn as_millis(self) -> (millis: u128)
        ensures
            millis == self.nanos / 1_000_000,
    {
        self.nanos / NANOS_PER_MILLI
    }

    /// The shorter of two durations.
    pub fn min(self, other: Duration) -> (shorter: Duration)
        ensures
            shorter == if self.nanos <= other.nanos { self } else { other },
    {
        if self.nanos <= other.nanos {
            self
        } else {
            other
        }
    }

    /// The longer of two durations.
    pub fn max(self, other: Duration) -> (longer: Duration)
        ensures
            longer == if self.nanos <= other.nanos { other } else { self },
    {
        if self.nanos <= other.nanos {
            other
        } else {
            self
        }
    }
}

/// The instant `span` after `start`, if the clock can represent it.
pub open spec fn instant_after(start: Instant, span: Duration) -> Option<Instant> {
    if start.nanos + span.nanos <= MAX_INSTANT_NANOS {
        Some(Instant { nanos: (start.nanos + span.nanos) as u128 })
    } else {
        None
    }
}

/// How long after `earlier` the instant `later` is, or zero if it is not later.
pub open spec fn time_between(earlier: Instant, later: Instant) -> Duration {
    if earlier.nanos <= later.nanos {
        Duration { nanos: (later.nanos - earlier.nanos) as u128 }
    } else {
        Duration { nanos: 0 }
    }
}

impl Instant {
    /// The instant `duration` after this one, or `None` if the clock cannot represent it.
    pub fn checked_add(self, duration: Duration) -> (sum: Option<Instant>)
        ensures
            sum == instant_after(self, duration),
    {
        if duration.nanos <= MAX_INSTANT_NANOS && self.nanos <= MAX_INSTANT_NANOS - duration.nanos {
            Some(Instant { nanos: self.nanos + duration.nanos })
        } else {
            None
        }
    }

    /// The time elapsed since `earlier`, or zero if `earlier` lies in the future.
    pub fn saturating_duration_since(self, earlier: Instant) -> (span: Duration)
        ensures
            span == time_between(earlier, self),
    {
        if earlier.nanos <= self.nanos {
            Duration { nanos: self.nanos - earlier.nanos }
        } else {
            Duration { nanos: 0 }
        }
    }
}

/// No instant lies the longest duration ahead of another.
pub proof fn law_longest_duration_overflows(start: Instant)
    ensures
        instant_after(start, Duration { nanos: MAX_DURATION_NANOS }) is None,
{
}

/// Durations add up in every unit, and a thousand of one unit is one of the next: a nanosecond is
/// the smallest.
pub proof fn law_units_of_durations_agree(
    a: u64,
    b: u64,
    sum: u64,
    secs: (Duration, Duration, Duration),
    millis: (Duration, Duration, Duration),
    micros: (Duration, Duration, Duration),
    nanos: (Duration, Duration, Duration),
)
    requires
        call_ensures(Duration::from_secs, (a,), secs.0),
        call_ensures(Duration::from_secs, (b,), secs.1),
        call_ensures(Duration::from_secs, (sum,), secs.2),
        call_ensures(Duration::from_millis, (a,), millis.0),
        call_ensures(Duration::from_millis, (b,), millis.1),
        call_ensures(Duration::from_millis, (sum,), millis.2),
        call_ensures(Duration::from_micros, (a,), micros.0),
        call_ensures(Duration::from_micros, (b,), micros.1),
        call_ensures(Duration::from_micros, (sum,), micros.2),
        call_ensures(Duration::from_nanos, (a,), nanos.0),
        call_ensures(Duration::from_nanos, (b,), nanos.1),
        call_ensures(Duration::from_nanos, (sum,), nanos.2),
    ensures
        a + b == sum ==> secs.0.nanos + secs.1.nanos == secs.2.nanos && millis.0.nanos
            + millis.1.nanos == millis.2.nanos && micros.0.nanos + micros.1.nanos == micros.2.nanos
            && nanos.0.nanos + nanos.1.nanos == nanos.2.nanos,
        b == 1000 * a ==> secs.0 == millis.1 && millis.0 == micros.1 && micros.0 == nanos.1,
        secs.0.nanos == 1000 * millis.0.nanos,
        millis.0.nanos == 1000 * micros.0.nanos,
        micros.0.nanos == 1000 * nanos.0.nanos,
        nanos.0.nanos == a,
{
}

/// The milliseconds of a duration are those that fit into it, and no more fit.
pub proof fn law_milliseconds_fit(duration: Duration, millis: u128, unit: Duration)
    requires
        call_ensures(Duration::as_millis, (duration,), millis),
        call_ensures(Duration::from_millis, (1,), unit),
    ensures
        millis * unit.nanos <= duration.nanos < (millis + 1) * unit.nanos,
{
    let nanos = unit.nanos as int;
    assert(millis * nanos == millis * 1_000_000 && (millis + 1) * nanos == (millis + 1)
        * 1_000_000) by (nonlinear_arith)
        requires
            nanos == 1_000_000,
    ;
}

/// The shorter and the longer of two durations are those two, and the one is not longer than the
/// other.
pub proof fn law_shorter_and_longer(a: Duration, b: Duration, shorter: Duration, longer: Duration)
    requires
        call_ensures(Duration::min, (a, b), shorter),
        call_ensures(Duration::max, (a, b), longer),
    ensures
        (shorter == a && longer == b) || (shorter == b && longer == a),
        shorter.nanos <= longer.nanos,
{
}

/// No duration of any unit is longer than the longest, which is a nanosecond short of one second
/// more than the most seconds.
pub proof fn law_longest_duration(max: Duration, secs: u64, duration: Duration, most: Duration)
    requires
        call_ensures(duration_max, (), max),
        call_ensures(Duration::from_secs, (secs,), duration),
        call_ensures(Duration::from_secs, (u64::MAX,), most),
    ensures
        duration.nanos <= max.nanos,
        max.nanos + 1 == most.nanos + 1_000_000_000,
{
}

/// An instant that lies a duration after another is that duration later, and there is one as long as
/// the clock reaches so far. The time elapsed between the two is the duration.
pub proof fn law_elapsed_time_is_what_was_added(
    start: Instant,
    duration: Duration,
    sum: Option<Instant>,
    elapsed: Duration,
)
    requires
        call_ensures(Instant::checked_add, (start, duration), sum),
        sum matches Some(end) ==> call_ensures(
            Instant::saturating_duration_since,
            (end, start),
            elapsed,
        ),
    ensures
        sum is None <==> start.nanos + duration.nanos > MAX_INSTANT_NANOS,
        sum matches Some(end) ==> end.nanos == start.nanos + duration.nanos && elapsed == duration,
{
}

/// The time elapsed since an instant in the future is zero, and since any other it is what has to be
/// added to get from there to here.
pub proof fn law_no_time_elapses_backwards(here: Instant, there: Instant, elapsed: Duration)
    requires
        call_ensures(Instant::saturating_duration_since, (here, there), elapsed),
    ensures
        there.nanos >= here.nanos ==> elapsed.nanos == 0,
        there.nanos <= here.nanos ==> there.nanos + elapsed.nanos == here.nanos,
{
}

/// The clock reaches up to the last nanosecond before one second more than the most seconds, which
/// are half of the most seconds of a duration.
pub proof fn law_clock_reaches_far(start: Instant, duration: Duration, sum: Option<Instant>)
    requires
        call_ensures(Instant::checked_add, (start, duration), sum),
    ensures
        sum is Some <==> start.nanos + duration.nanos < 0x8000_0000_0000_0000 * 1_000_000_000,
{
}

} // verus!
