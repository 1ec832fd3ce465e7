//! Instants and half-open time intervals.
use time::OffsetDateTime;
use vstd::prelude::*;

verus! {

/// An instant: nanoseconds since the Unix epoch (UTC).
#[derive(Debug, Clone, Copy, PartialEq, Eq, Structural)]
pub struct Timestamp {
    pub unix_nanos: i128,
}

/// Nanoseconds in a second.
pub const NANOS_PER_SECOND: i128 = 1_000_000_000;

/// Nanoseconds in a day.
pub const NANOS_PER_DAY: i128 = 86_400_000_000_000;

/// How far past "now" an open interval is taken to reach: 365 000 days.
pub const FAR_FUTURE_NANOS: i128 = 31_536_000_000_000_000_000_000;

/// Every instant the clock reports lies strictly within this many
/// nanoseconds of the epoch (years ±999 999).
pub const CLOCK_RANGE_NANOS: i128 = 100_000_000_000_000_000_000_000;

/// Whole seconds in a span of nanoseconds, rounded toward zero.
pub open spec fn whole_seconds(nanos: int) -> int {
    if nanos >= 0 {
        nanos / (NANOS_PER_SECOND as int)
    } else {
        -((-nanos) / (NANOS_PER_SECOND as int))
    }
}

impl Timestamp {
    /// The instant `secs` seconds after the epoch.
    pub fn from_unix_seconds(secs: i64) -> (r: Timestamp)
        ensures
            r.unix_nanos == secs * NANOS_PER_SECOND,
    {
        assert(-9_223_372_036_854_775_808_000_000_000 <= secs * NANOS_PER_SECOND <= 9_223_372_036_854_775_807_000_000_000)
            by (nonlinear_arith)
            requires
                i64::MIN <= secs <= i64::MAX,
        ;
        Timestamp { unix_nanos: (secs as i128) * NANOS_PER_SECOND }
    }

    /// The instant `nanos` nanoseconds after the epoch.
    pub fn from_unix_nanos(nanos: i128) -> (r: Timestamp)
        ensures
            r.unix_nanos == nanos,
    {
        Timestamp { unix_nanos: nanos }
    }

    /// This instant moved by `days` days.
    pub fn plus_days(self, days: i64) -> (r: Timestamp)
        requires
            i128::MIN <= self.unix_nanos + days * NANOS_PER_DAY <= i128::MAX,
        ensures
            r.unix_nanos == self.unix_nanos + days * NANOS_PER_DAY,
    {
        assert(-797_512_338_779_647_657_984_000_000_000_000_000 <= days * NANOS_PER_DAY <= 797_512_338_779_647_657_984_000_000_000_000_000)
            by (nonlinear_arith)
            requires
                i64::MIN <= days <= i64::MAX,
        ;
        Timestamp { unix_nanos: self.unix_nanos + (days as i128) * NANOS_PER_DAY }
    }

    /// Whole seconds from `earlier` to this instant, rounded toward zero.
    pub fn whole_seconds_since(self, earlier: Timestamp) -> (r: i128)
        requires
            i128::MIN < self.unix_nanos - earlier.unix_nanos <= i128::MAX,
        ensures
            r == whole_seconds(self.unix_nanos - earlier.unix_nanos),
    {
        let d = self.unix_nanos - earlier.unix_nanos;
        if d >= 0 {
            d / NANOS_PER_SECOND
        } else {
            -((-d) / NANOS_PER_SECOND)
        }
    }
}

/// The current instant, from `time::OffsetDateTime::now_utc`. The clock
/// decides the value; the contract says only that it lies in the range of
/// `OffsetDateTime` (years ±999 999), within ±10^23 ns of the epoch.
#[verifier::external_body]
pub(crate) fn now() -> (r: Timestamp)
    ensures
        -CLOCK_RANGE_NANOS < r.unix_nanos < CLOCK_RANGE_NANOS,
{
    Timestamp { unix_nanos: OffsetDateTime::now_utc().unix_timestamp_nanos() }
}

/// A half-open interval `[start, end)`; without an end it runs on forever.
#[derive(Debug, Clone, Copy, PartialEq, Eq, Structural)]
pub struct TimeInterval {
    pub start: Timestamp,
    pub end: Option<Timestamp>,
}

/// The end of `iv`, or `far` where it has none.
pub open spec fn end_or(iv: TimeInterval, far: int) -> int {
    match iv.end {
        Some(e) => e.unix_nanos as int,
        None => far,
    }
}

/// Whether `t` lies in `iv`.
pub open spec fn interval_contains(iv: TimeInterval, t: Timestamp) -> bool {
    iv.start.unix_nanos <= t.unix_nanos && match iv.end {
        Some(e) => t.unix_nanos < e.unix_nanos,
        None => true,
    }
}

/// Whether `a` and `b` share an instant, open ends reaching to `far`.
pub open spec fn overlaps_until(a: TimeInterval, b: TimeInterval, far: int) -> bool {
    a.start.unix_nanos < end_or(b, far) && b.start.unix_nanos < end_or(a, far)
}

/// The common part of `a` and `b`, open ends reaching to `far`; an end at
/// or past `far` is left open.
pub open spec fn intersection_until(a: TimeInterval, b: TimeInterval, far: int) -> Option<TimeInterval> {
    let start = if a.start.unix_nanos >= b.start.unix_nanos { a.start } else { b.start };
    let end = if end_or(a, far) <= end_or(b, far) { end_or(a, far) } else { end_or(b, far) };
    if (start.unix_nanos as int) < end {
        Some(TimeInterval { start, end: if end >= far { None } else { Some(Timestamp { unix_nanos: end as i128 }) } })
    } else {
        None
    }
}

/// Whether `a` ends no later than `b` starts.
pub open spec fn interval_before(a: TimeInterval, b: TimeInterval) -> bool {
    match a.end {
        Some(e) => b.start.unix_nanos >= e.unix_nanos,
        None => false,
    }
}

/// Whether `b` lies within `a`.
pub open spec fn interval_within(a: TimeInterval, b: TimeInterval) -> bool {
    a.start.unix_nanos <= b.start.unix_nanos && match a.end {
        None => true,
        Some(ae) => match b.end {
            Some(be) => ae.unix_nanos >= be.unix_nanos,
            None => false,
        },
    }
}

impl TimeInterval {
    /// The interval from `start` on, without an end.
    pub fn starting_at(start: Timestamp) -> (r: Self)
        ensures
            r == (TimeInterval { start, end: None }),
    {
        TimeInterval { start, end: None }
    }

    /// The interval `[start, end)`.
    pub fn bounded(start: Timestamp, end: Timestamp) -> (r: Self)
        ensures
            r == (TimeInterval { start, end: Some(end) }),
    {
        TimeInterval { start, end: Some(end) }
    }

    /// Whether `t` lies in the interval.
    pub fn contains(&self, t: Timestamp) -> (r: bool)
        ensures
            r == interval_contains(*self, t),
    {
        t.unix_nanos >= self.start.unix_nanos && match self.end {
            Some(e) => t.unix_nanos < e.unix_nanos,
            None => true,
        }
    }

    /// The end of the interval, or `far` where it has none.
    fn end_or_far(&self, far: i128) -> (r: i128)
        ensures
            r == end_or(*self, far as int),
    {
        match self.end {
            Some(e) => e.unix_nanos,
            None => far,
        }
    }

    /// Whether the two intervals share an instant, open ends reaching to
    /// `far`.
    pub fn overlaps_until(&self, other: &Self, far: i128) -> (r: bool)
        ensures
            r == overlaps_until(*self, *other, far as int),
    {
        self.start.unix_nanos < other.end_or_far(far) && other.start.unix_nanos < self.end_or_far(far)
    }

    /// Whether the two intervals share an instant; an open end reaches
    /// 365 000 days past the current time (`far`). Where both are bounded, the clock
    /// plays no part.
    pub fn overlaps(&self, other: &Self) -> (r: bool)
        ensures
            exists|far: int| -CLOCK_RANGE_NANOS < far - FAR_FUTURE_NANOS < CLOCK_RANGE_NANOS && r == #[trigger] overlaps_until(*self, *other, far),
            self.end is Some && other.end is Some ==> r == overlaps_until(*self, *other, 0),
    {
        let t = now();
        let far = t.unix_nanos + FAR_FUTURE_NANOS;
        let r = self.overlaps_until(other, far);
        assert(r == overlaps_until(*self, *other, t.unix_nanos + FAR_FUTURE_NANOS));
        r
    }

    /// The length of a bounded interval, in nanoseconds.
    pub fn duration(&self) -> (r: Option<i128>)
        requires
            self.end matches Some(e) ==> i128::MIN <= e.unix_nanos - self.start.unix_nanos <= i128::MAX,
        ensures
            r == match self.end {
                Some(e) => Some((e.unix_nanos - self.start.unix_nanos) as i128),
                None => None::<i128>,
            },
    {
        match self.end {
            Some(e) => Some(e.unix_nanos - self.start.unix_nanos),
            None => None,
        }
    }

    /// The common part of the two intervals, open ends reaching to `far`.
    pub fn intersection_until(&self, other: &Self, far: i128) -> (r: Option<Self>)
        ensures
            r == intersection_until(*self, *other, far as int),
    {
        let start = if self.start.unix_nanos >= other.start.unix_nanos { self.start } else { other.start };
        let se = self.end_or_far(far);
        let oe = other.end_or_far(far);
        let end = if se <= oe { se } else { oe };
        if start.unix_nanos < end {
            Some(TimeInterval { start, end: if end >= far { None } else { Some(Timestamp { unix_nanos: end }) } })
        } else {
            None
        }
    }

    /// The common part of the two intervals; an open end reaches 365 000
    /// days past the current time, and a common end that far out is left
    /// open.
    pub fn intersection(&self, other: &Self) -> (r: Option<Self>)
        ensures
            exists|far: int| -CLOCK_RANGE_NANOS < far - FAR_FUTURE_NANOS < CLOCK_RANGE_NANOS && r == #[trigger] intersection_until(*self, *other, far),
    {
        let t = now();
        let far = t.unix_nanos + FAR_FUTURE_NANOS;
        let r = self.intersection_until(other, far);
        assert(r == intersection_until(*self, *other, t.unix_nanos + FAR_FUTURE_NANOS));
        r
    }

    /// Whether this interval ends no later than `other` starts.
    pub fn before(&self, other: &Self) -> (r: bool)
        ensures
            r == interval_before(*self, *other),
    {
        match self.end {
            Some(e) => other.start.unix_nanos >= e.unix_nanos,
            None => false,
        }
    }

    /// Whether this interval starts no earlier than `other` ends.
    pub fn after(&self, other: &Self) -> (r: bool)
        ensures
            r == interval_before(*other, *self),
    {
        match other.end {
            Some(e) => self.start.unix_nanos >= e.unix_nanos,
            None => false,
        }
    }

    /// Whether `other` lies within this interval.
    pub fn contains_interval(&self, other: &Self) -> (r: bool)
        ensures
            r == interval_within(*self, *other),
    {
        self.start.unix_nanos <= other.start.unix_nanos && match self.end {
            None => true,
            Some(se) => match other.end {
                Some(oe) => se.unix_nanos >= oe.unix_nanos,
                None => false,
            },
        }
    }
}

/// Whether two intervals have the same bounds.
pub fn same_interval(a: &TimeInterval, b: &TimeInterval) -> (r: bool)
    ensures
        r == (*a == *b),
{
    a.start.unix_nanos == b.start.unix_nanos && match (a.end, b.end) {
        (Some(x), Some(y)) => x.unix_nanos == y.unix_nanos,
        (None, None) => true,
        _ => false,
    }
}

/// An interval contains every instant from its start up to (not including)
/// its end.
pub proof fn lemma_contains_exactly(iv: TimeInterval, t: Timestamp)
    ensures
        interval_contains(iv, t) <==> (iv.start.unix_nanos <= t.unix_nanos && (iv.end matches Some(e) ==> t.unix_nanos < e.unix_nanos)),
{
}

/// Overlap is symmetric, and an interval that contains an instant overlaps
/// every interval that contains it too.
pub proof fn lemma_overlap_laws(a: TimeInterval, b: TimeInterval, t: Timestamp, far: int)
    requires
        far > t.unix_nanos,
    ensures
        overlaps_until(a, b, far) == overlaps_until(b, a, far),
        interval_contains(a, t) && interval_contains(b, t) ==> overlaps_until(a, b, far),
        interval_before(a, b) ==> !overlaps_until(a, b, far),
{
}

/// The intersection, where there is one, lies within both intervals; two
/// non-empty intervals have one exactly when they overlap.
pub proof fn lemma_intersection_within(a: TimeInterval, b: TimeInterval, far: int)
    requires
        a.start.unix_nanos < end_or(a, far),
        b.start.unix_nanos < end_or(b, far),
        a.end matches Some(e) ==> e.unix_nanos < far,
        b.end matches Some(e) ==> e.unix_nanos < far,
    ensures
        intersection_until(a, b, far) matches Some(c) ==> interval_within(a, c) && interval_within(b, c),
        intersection_until(a, b, far) is Some <==> overlaps_until(a, b, far),
{
}

} // verus!
