//! Spans of time, readings of a clock, and the clock itself.
use vstd::prelude::*;

verus! {

/// Nanoseconds in one second.
pub const NANOS_PER_SEC: u128 = 1_000_000_000;

/// The largest reading that a [`Clock`] gives, in nanoseconds.
pub const MAX_READING: u128 = 18_446_744_073_709_551_615_999_999_999;

/// A span of time.
#[derive(Debug, Clone, Copy, PartialEq, Eq, Structural)]
pub struct Duration {
    secs: u64,
    nanos: u32,
}

impl Duration {
    #[verifier::type_invariant]
    spec fn is_valid(self) -> bool {
        self.nanos < NANOS_PER_SEC
    }

    /// The whole span in nanoseconds.
    pub closed spec fn nanos(self) -> nat {
        (self.secs * NANOS_PER_SEC + self.nanos) as nat
    }

    /// A span of seconds and nanoseconds; whole seconds among the nanoseconds are carried over.
    pub fn new(secs: u64, nanos: u32) -> (span: Duration)
        requires
            secs + nanos as int / 1_000_000_000 <= u64::MAX,
        ensures
            span.nanos() == secs * NANOS_PER_SEC + nanos,
    {
        Duration { secs: secs + (nanos / 1_000_000_000) as u64, nanos: nanos % 1_000_000_000 }
    }

    /// A span of whole seconds.
    pub fn from_secs(secs: u64) -> (span: Duration)
        ensures
            span.nanos() == secs * NANOS_PER_SEC,
    {
        Duration { secs, nanos: 0 }
    }

    /// A span of whole milliseconds.
    pub fn from_millis(millis: u64) -> (span: Duration)
        ensures
            span.nanos() == millis * 1_000_000,
    {
        Duration { secs: millis / 1000, nanos: ((millis % 1000) * 1_000_000) as u32 }
    }

    /// A span of whole nanoseconds.
    pub fn from_nanos(nanos: u64) -> (span: Duration)
        ensures
            span.nanos() == nanos,
    {
        Duration { secs: nanos / 1_000_000_000, nanos: (nanos % 1_000_000_000) as u32 }
    }

    /// The whole seconds of the span.
    pub fn as_secs(self) -> (secs: u64)
        ensures
            secs == self.nanos() / 1_000_000_000,
    {
        proof {
            use_type_invariant(&self);
        }
        self.secs
    }

    /// The nanoseconds of the span beyond its whole seconds.
    pub fn subsec_nanos(self) -> (nanos: u32)
        ensures
            nanos == self.nanos() % 1_000_000_000,
    {
        proof {
            use_type_invariant(&self);
        }
        self.nanos
    }

    /// Whether the span is empty.
    pub fn is_zero(self) -> (zero: bool)
        ensures
            zero == (self.nanos() == 0),
    {
        self.secs == 0 && self.nanos == 0
    }
}

/// A moment, in nanoseconds since the origin of the clock that it belongs to.
#[derive(Debug, Clone, Copy, PartialEq, Eq, Structural)]
pub struct Moment {
    pub nanos: u128,
}

impl Moment {
    /// Whether a clock can give this moment as its reading.
    pub open spec fn is_reading(self) -> bool {
        self.nanos <= MAX_READING
    }

    /// The moment that lies a span after this one.
    pub open spec fn plus(self, span: Duration) -> Moment {
        Moment { nanos: (self.nanos + span.nanos()) as u128 }
    }

    /// The moment that lies `span` after this reading.
    pub fn after(self, span: Duration) -> (moment: Moment)
        requires
            self.is_reading(),
        ensures
            moment == self.plus(span),
            moment.nanos == self.nanos + span.nanos(),
    {
        Moment { nanos: self.nanos + (span.secs as u128 * NANOS_PER_SEC + span.nanos as u128) }
    }

    /// Whether this moment has passed, or is just passing, at `now`.
    pub fn has_passed(self, now: Moment) -> (passed: bool)
        ensures
            passed == (self.nanos <= now.nanos),
    {
        self.nanos <= now.nanos
    }
}

/// A reading of the runtime's monotonic clock, `tokio::time::Instant`.
#[verifier::external_type_specification]
#[verifier::external_body]
pub struct ExTokioInstant(tokio::time::Instant);

/// `tokio::time::Instant::now` reads the clock; nothing is known of the reading.
pub assume_specification[ tokio::time::Instant::now ]() -> tokio::time::Instant;

/// Whether the runtime's clock may be read as `instant`.
pub open spec fn may_be_read(instant: tokio::time::Instant) -> bool {
    call_ensures(tokio::time::Instant::now, (), instant)
}

/// The nanoseconds from one instant to a later one, as the runtime's clock counts them.
pub uninterp spec fn nanos_between(
    earlier: tokio::time::Instant,
    later: tokio::time::Instant,
) -> u128;

/// The nanoseconds from `earlier` to `later`, by `tokio::time::Instant::saturating_duration_since`.
///
/// The result depends on the two instants alone. It is the length of a standard duration, which
/// holds at most `u64::MAX` seconds and less than one second besides. It is zero where `later` is
/// not the later of the two, which is not stated: how instants are ordered is not modelled.
#[verifier::external_body]
fn nanos_since(later: &tokio::time::Instant, earlier: &tokio::time::Instant) -> (nanos: u128)
    ensures
        nanos == nanos_between(*earlier, *later),
        nanos <= MAX_READING,
{
    later.saturating_duration_since(*earlier).as_nanos()
}

/// A source of readings that all count from one origin.
pub struct Clock {
    pub origin: tokio::time::Instant,
}

impl Clock {
    /// Whether a moment is how far some reading of the runtime's clock lies after the origin.
    pub open spec fn may_give(self, moment: Moment) -> bool {
        exists|reading: tokio::time::Instant| #[trigger]
            may_be_read(reading) && moment.nanos == nanos_between(self.origin, reading)
    }

    /// A clock whose origin is the present moment.
    pub fn start() -> (clock: Clock)
        ensures
            may_be_read(clock.origin),
    {
        let origin = tokio::time::Instant::now();
        Clock { origin }
    }

    /// The present moment: the runtime's clock is read, and the reading is counted from the origin.
    ///
    /// What the reading is depends on when the call is made.
    pub fn now(&self) -> (now: Moment)
        ensures
            self.may_give(now),
            now.is_reading(),
    {
        let reading = tokio::time::Instant::now();
        assert(may_be_read(reading));
        Moment { nanos: nanos_since(&reading, &self.origin) }
    }
}

/// A moment that lies a span after a reading is later by exactly that span.
pub proof fn spans_add_to_readings(reading: Moment, span: Duration)
    requires
        reading.is_reading(),
        span.nanos() <= MAX_READING,
    ensures
        reading.plus(span).nanos == reading.nanos + span.nanos(),
{
}

} // verus!
