//! Spans of time and points in time, in whole nanoseconds.

use vstd::prelude::*;

verus! {

/// Length of the longest span, and of the span from the epoch to the last point in time:
/// `u64::MAX` seconds and 999 999 999 nanoseconds.
pub const MAX_NANOS: u128 = 18_446_744_073_709_551_615_999_999_999;

/// A span of time. Its view is its length in nanoseconds.
#[derive(Clone, Copy, Debug, PartialEq, Eq, PartialOrd, Ord, Structural)]
pub struct Duration {
    nanos: u128,
}

impl View for Duration {
    type V = nat;

    closed spec fn view(&self) -> nat {
        self.nanos as nat
    }
}

impl Duration {
    #[verifier::type_invariant]
    spec fn in_range(self) -> bool {
        self.nanos <= MAX_NANOS
    }

    /// A span of `nanos` nanoseconds, or `None` if no span is that long.
    pub fn from_nanos(nanos: u128) -> (span: Option<Duration>)
        ensures
            span is Some <==> nanos <= MAX_NANOS,
            span is Some ==> span->0@ == nanos,
    {
        if nanos <= MAX_NANOS {
            Some(Duration { nanos })
        } else {
            None
        }
    }

    /// A span of `micros` microseconds.
    pub fn from_micros(micros: u64) -> (span: Duration)
        ensures
            span@ == micros * 1_000,
    {
        Duration { nanos: micros as u128 * 1_000 }
    }

    /// A span of `millis` milliseconds.
    pub fn from_millis(millis: u64) -> (span: Duration)
        ensures
            span@ == millis * 1_000_000,
    {
        Duration { nanos: millis as u128 * 1_000_000 }
    }

    /// A span of `secs` seconds.
    pub fn from_secs(secs: u64) -> (span: Duration)
        ensures
            span@ == secs * 1_000_000_000,
    {
        Duration { nanos: secs as u128 * 1_000_000_000 }
    }

    /// The length of this span in nanoseconds.
    pub fn as_nanos(&self) -> (nanos: u128)
        ensures
            nanos == self@,
            nanos <= MAX_NANOS,
    {
        proof {
            use_type_invariant(self);
        }
        self.nanos
    }

    /// The whole microseconds in this span.
    pub fn as_micros(&self) -> (micros: u128)
        ensures
            micros == self@ / 1_000,
    {
        self.nanos / 1_000
    }

    /// The whole milliseconds in this span.
    pub fn as_millis(&self) -> (millis: u128)
        ensures
            millis == self@ / 1_000_000,
    {
        self.nanos / 1_000_000
    }

    /// This span `count` times over, or `None` if no span is that long.
    pub fn checked_mul(&self, count: u32) -> (span: Option<Duration>)
        ensures
            span is Some <==> self@ * count <= MAX_NANOS,
            span is Some ==> span->0@ == self@ * count,
    {
        proof {
            use_type_invariant(self);
        }
        let nanos: u128 = self.nanos;
        assert(0 <= nanos * count <= u128::MAX) by (nonlinear_arith)
            requires
                nanos <= MAX_NANOS,
                count <= u32::MAX,
        ;
        Duration::from_nanos(nanos * count as u128)
    }
}

/// Spans are told apart by their lengths alone.
pub proof fn duration_is_its_length(a: Duration, b: Duration)
    requires
        a@ == b@,
    ensures
        a == b,
{
}

/// A point in time. Its view is the number of nanoseconds since an epoch that all points
/// that are compared with one another share.
#[derive(Clone, Copy, Debug, PartialEq, Eq, PartialOrd, Ord, Structural)]
pub struct Instant {
    nanos: u128,
}

impl View for Instant {
    type V = nat;

    closed spec fn view(&self) -> nat {
        self.nanos as nat
    }
}

impl Instant {
    #[verifier::type_invariant]
    spec fn in_range(self) -> bool {
        self.nanos <= MAX_NANOS
    }

    /// The point that lies `span` after the epoch.
    pub fn since_epoch(span: Duration) -> (point: Instant)
        ensures
            point@ == span@,
    {
        Instant { nanos: span.as_nanos() }
    }

    /// Whether this point lies before `other`.
    pub fn is_before(&self, other: Instant) -> (before: bool)
        ensures
            before == (self@ < other@),
    {
        self.nanos < other.nanos
    }

    /// The point `span` after this one, or `None` if there is no such point.
    pub fn checked_add(&self, span: Duration) -> (point: Option<Instant>)
        ensures
            point is Some <==> self@ + span@ <= MAX_NANOS,
            point is Some ==> point->0@ == self@ + span@,
    {
        proof {
            use_type_invariant(self);
        }
        let nanos: u128 = self.nanos + span.as_nanos();
        if nanos <= MAX_NANOS {
            Some(Instant { nanos })
        } else {
            None
        }
    }

    /// The point `span` before this one, or `None` if there is no such point.
    pub fn checked_sub(&self, span: Duration) -> (point: Option<Instant>)
        ensures
            point is Some <==> span@ <= self@,
            point is Some ==> point->0@ == self@ - span@,
    {
        proof {
            use_type_invariant(self);
        }
        let span_nanos: u128 = span.as_nanos();
        if span_nanos <= self.nanos {
            Some(Instant { nanos: self.nanos - span_nanos })
        } else {
            None
        }
    }

    /// The span from `earlier` to this point, which is zero if `earlier` lies after it.
    pub fn saturating_duration_since(&self, earlier: Instant) -> (span: Duration)
        ensures
            span@ == if earlier@ <= self@ {
                self@ - earlier@
            } else {
                0
            },
    {
        proof {
            use_type_invariant(self);
        }
        if earlier.nanos <= self.nanos {
            Duration { nanos: self.nanos - earlier.nanos }
        } else {
            Duration { nanos: 0 }
        }
    }
}

/// A span is as long as it was made, in each unit, and the longest span is that of `u64::MAX`
/// seconds and 999 999 999 nanoseconds.
pub proof fn spans_have_their_length(
    nanos: u128,
    from_nanos: Option<Duration>,
    count: u64,
    micros: Duration,
    millis: Duration,
    secs: Duration,
)
    requires
        call_ensures(Duration::from_nanos, (nanos,), from_nanos),
        call_ensures(Duration::from_micros, (count,), micros),
        call_ensures(Duration::from_millis, (count,), millis),
        call_ensures(Duration::from_secs, (count,), secs),
    ensures
        from_nanos is None <==> nanos > u64::MAX * 1_000_000_000 + 999_999_999,
        from_nanos matches Some(span) ==> span@ == nanos,
        micros@ == count * 1_000,
        millis@ == count * 1_000_000,
        secs@ == count * 1_000_000_000,
{
}

/// A length in a unit counts the whole units of a span.
pub proof fn lengths_count_whole_units(span: &Duration, nanos: u128, micros: u128, millis: u128)
    requires
        call_ensures(Duration::as_nanos, (span,), nanos),
        call_ensures(Duration::as_micros, (span,), micros),
        call_ensures(Duration::as_millis, (span,), millis),
    ensures
        nanos == span@,
        micros * 1_000 <= nanos < (micros + 1) * 1_000,
        millis * 1_000_000 <= nanos < (millis + 1) * 1_000_000,
{
}

/// A span times a count is as long as so many of it, unless that is longer than any span.
pub proof fn multiples_add_up(span: &Duration, count: u32, multiple: Option<Duration>)
    requires
        call_ensures(Duration::checked_mul, (span, count), multiple),
    ensures
        multiple is None <==> span@ * count > u64::MAX * 1_000_000_000 + 999_999_999,
        multiple matches Some(whole) ==> whole@ == span@ * count,
{
}

/// The point that is a span after another one comes that much later, the point that is a span
/// before that one is the first again, and there is such a point unless time ends before it.
pub proof fn points_are_spans_apart(
    point: &Instant,
    span: Duration,
    later: Option<Instant>,
    back: Option<Instant>,
    apart: Duration,
    other_way: Duration,
    before: bool,
    after: bool,
)
    requires
        call_ensures(Instant::checked_add, (point, span), later),
        later is Some ==> {
            &&& call_ensures(Instant::checked_sub, (&later->0, span), back)
            &&& call_ensures(Instant::saturating_duration_since, (&later->0, *point), apart)
            &&& call_ensures(Instant::saturating_duration_since, (point, later->0), other_way)
            &&& call_ensures(Instant::is_before, (point, later->0), before)
            &&& call_ensures(Instant::is_before, (&later->0, *point), after)
        },
    ensures
        later is None <==> point@ + span@ > u64::MAX * 1_000_000_000 + 999_999_999,
        later matches Some(end) ==> {
            &&& end@ == point@ + span@
            &&& apart@ == span@
            &&& other_way@ == 0
            &&& back matches Some(start) && start@ == point@
            &&& before <==> span@ > 0
            &&& !after
        },
{
}

/// There is a point that is a span before another one exactly if the other one is that far from
/// the epoch.
pub proof fn no_point_precedes_the_epoch(
    span: Duration,
    since: Instant,
    point: &Instant,
    earlier: Option<Instant>,
)
    requires
        call_ensures(Instant::since_epoch, (span,), since),
        call_ensures(Instant::checked_sub, (point, span), earlier),
    ensures
        since@ == span@,
        earlier is None <==> point@ < since@,
        earlier matches Some(start) ==> start@ + span@ == point@,
{
}

} // verus!
