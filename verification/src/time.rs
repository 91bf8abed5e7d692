//! Points in time and spans of time, counted in nanoseconds.
//!
//! An [`Instant`] counts from the moment its [`Clock`] was started, so two
//! instants compare only when they were read from the same clock.
use vstd::prelude::*;

verus! {

/// Nanoseconds in one second.
pub const NANOS_PER_SEC: u128 = 1_000_000_000;

/// Nanoseconds in one millisecond.
pub const NANOS_PER_MILLI: u128 = 1_000_000;

/// The longest span a [`Duration`] built from whole seconds can hold.
pub const MAX_SPAN_NANOS: u128 = 18_446_744_073_709_551_615_999_999_999;

/// A span of time.
#[derive(Clone, Copy, Debug, PartialEq, Eq, PartialOrd, Ord, Structural)]
pub struct Duration {
    pub nanos: u128,
}

impl Duration {
    pub fn from_nanos(nanos: u128) -> (r: Duration)
        ensures
            r.nanos == nanos,
    {
        Duration { nanos }
    }

    pub fn from_secs(secs: u64) -> (r: Duration)
        ensures
            r.nanos == secs * NANOS_PER_SEC,
            r.nanos <= MAX_SPAN_NANOS,
    {
        Duration { nanos: secs as u128 * NANOS_PER_SEC }
    }

    pub fn from_millis(millis: u64) -> (r: Duration)
        ensures
            r.nanos == millis * NANOS_PER_MILLI,
            r.nanos <= MAX_SPAN_NANOS,
    {
        Duration { nanos: millis as u128 * NANOS_PER_MILLI }
    }

    /// Whole seconds in the span, the fraction dropped.
    pub fn as_secs(&self) -> (r: u128)
        ensures
            r == self.nanos / NANOS_PER_SEC,
    {
        self.nanos / NANOS_PER_SEC
    }

    /// Whole milliseconds in the span, the fraction dropped.
    pub fn as_millis(&self) -> (r: u128)
        ensures
            r == self.nanos / NANOS_PER_MILLI,
    {
        self.nanos / NANOS_PER_MILLI
    }

    /// The longer of two spans.
    pub fn longer(self, other: Duration) -> (r: Duration)
        ensures
            r.nanos == if self.nanos >= other.nanos { self.nanos } else { other.nanos },
    {
        if self.nanos >= other.nanos {
            self
        } else {
            other
        }
    }
}

/// A point on a monotonic clock.
#[derive(Clone, Copy, Debug, PartialEq, Eq, PartialOrd, Ord, Structural)]
pub struct Instant {
    pub nanos: u128,
}

impl Instant {
    /// `self + span`, or `None` when the sum cannot be represented.
    pub fn checked_add(self, span: Duration) -> (r: Option<Instant>)
        ensures
            match r {
                Some(t) => t.nanos == self.nanos + span.nanos,
                None => self.nanos + span.nanos > u128::MAX,
            },
    {
        if span.nanos <= u128::MAX - self.nanos {
            Some(Instant { nanos: self.nanos + span.nanos })
        } else {
            None
        }
    }

    /// The span from `earlier` to `self`; zero when `earlier` is not earlier.
    pub fn saturating_duration_since(self, earlier: Instant) -> (r: Duration)
        ensures
            r.nanos == if self.nanos >= earlier.nanos { self.nanos - earlier.nanos } else { 0 },
    {
        if self.nanos >= earlier.nanos {
            Duration { nanos: self.nanos - earlier.nanos }
        } else {
            Duration { nanos: 0 }
        }
    }
}

/// `std::time::Instant`, an opaque reading of the machine's monotonic clock.
#[verifier::external_type_specification]
#[verifier::external_body]
pub struct ExInstant(std::time::Instant);

/// `std::time::Instant::now` reads the machine's clock. Nothing is claimed of
/// the reading.
pub assume_specification[ std::time::Instant::now ]() -> std::time::Instant;

/// `std::time::Instant::elapsed` gives the time that has passed since the
/// reading was taken. It depends on the clock, so nothing is claimed of it.
pub assume_specification[ std::time::Instant::elapsed ](
    reading: &std::time::Instant,
) -> std::time::Duration;

/// The whole seconds of a span of the machine's clock.
pub uninterp spec fn whole_secs(span: std::time::Duration) -> u64;

/// The nanoseconds of a span of the machine's clock beyond its whole seconds.
pub uninterp spec fn fraction_nanos(span: std::time::Duration) -> u32;

/// `std::time::Duration::as_secs` gives the whole seconds of a span, which
/// depend on the span alone.
pub assume_specification[ std::time::Duration::as_secs ](span: &std::time::Duration) -> (r: u64)
    ensures
        r == whole_secs(*span),
;

/// `std::time::Duration::subsec_nanos` gives the fractional part of a span,
/// which depends on the span alone and is less than one billion nanoseconds.
pub assume_specification[ std::time::Duration::subsec_nanos ](
    span: &std::time::Duration,
) -> (r: u32)
    ensures
        r == fraction_nanos(*span),
        r < 1_000_000_000,
;

/// The length of a span of the machine's clock, in nanoseconds.
pub open spec fn span_nanos(span: std::time::Duration) -> int {
    whole_secs(span) * NANOS_PER_SEC + fraction_nanos(span)
}

impl Instant {
    /// The point that lies a span of the machine's clock after the start.
    pub fn after_start(span: std::time::Duration) -> (r: Instant)
        ensures
            r.nanos == span_nanos(span),
            r.nanos <= MAX_SPAN_NANOS,
    {
        let secs: u64 = span.as_secs();
        let sub: u32 = span.subsec_nanos();
        Instant { nanos: secs as u128 * NANOS_PER_SEC + sub as u128 }
    }
}

/// The instant is one that a clock can read: a span of the machine's clock after
/// the start.
pub open spec fn is_reading(t: Instant) -> bool {
    &&& t.nanos <= MAX_SPAN_NANOS
    &&& exists|span: std::time::Duration| t.nanos == #[trigger] span_nanos(span)
}

/// A running monotonic clock.
#[derive(Clone, Copy)]
pub struct Clock {
    origin: std::time::Instant,
}

impl Clock {
    /// Starts a clock at the present moment. Where the machine's clock stands
    /// is not stated.
    pub fn start() -> Clock {
        Clock { origin: std::time::Instant::now() }
    }

    /// The time since the clock was started: the span that the machine's clock
    /// gives, to the nanosecond. Which span that is depends on the machine's
    /// clock and is not stated.
    pub fn now(&self) -> (r: Instant)
        ensures
            is_reading(r),
    {
        let span = self.origin.elapsed();
        let t = Instant::after_start(span);
        assert(t.nanos == span_nanos(span));
        t
    }
}

// ---------------------------------------------------------------------------
// Laws
// ---------------------------------------------------------------------------
/// Seconds and milliseconds are what they are in nanoseconds, and a span counted in
/// them again drops the fraction.
pub proof fn units_are_what_they_are(
    secs: u64,
    millis: u64,
    nanos: u128,
    s: Duration,
    m: Duration,
    n: Duration,
    whole_s: u128,
    whole_m: u128,
)
    requires
        call_ensures(Duration::from_secs, (secs,), s),
        call_ensures(Duration::from_millis, (millis,), m),
        call_ensures(Duration::from_nanos, (nanos,), n),
        call_ensures(Duration::as_secs, (&n,), whole_s),
        call_ensures(Duration::as_millis, (&n,), whole_m),
    ensures
        s.nanos == secs * 1_000_000_000,
        m.nanos == millis * 1_000_000,
        n.nanos == nanos,
        whole_s * 1_000_000_000 <= nanos < (whole_s + 1) * 1_000_000_000,
        whole_m * 1_000_000 <= nanos < (whole_m + 1) * 1_000_000,
{
}

/// Of two spans the longer one is the one that is no shorter than either; a span
/// after an instant leads to the instant that lies that span later, where it can be
/// represented; and the span between two instants is none where the first is not the
/// earlier one.
pub proof fn spans_add_up(
    a: Duration,
    b: Duration,
    c: Duration,
    t: Instant,
    sum: Option<Instant>,
    u: Instant,
    gap: Duration,
)
    requires
        call_ensures(Duration::longer, (a, b), c),
        call_ensures(Instant::checked_add, (t, a), sum),
        call_ensures(Instant::saturating_duration_since, (t, u), gap),
    ensures
        c.nanos >= a.nanos && c.nanos >= b.nanos,
        c == a || c == b,
        sum matches Some(x) ==> x.nanos - t.nanos == a.nanos,
        sum is None <==> t.nanos + a.nanos > u128::MAX,
        t.nanos >= u.nanos ==> u.nanos + gap.nanos == t.nanos,
        t.nanos < u.nanos ==> gap.nanos == 0,
{
}

/// An instant counts every nanosecond since the clock was started.
pub proof fn an_instant_counts_every_nanosecond(span: std::time::Duration, t: Instant)
    requires
        call_ensures(Instant::after_start, (span,), t),
    ensures
        t.nanos == whole_secs(span) * 1_000_000_000 + fraction_nanos(span),
{
}

} // verus!
