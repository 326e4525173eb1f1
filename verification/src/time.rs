//! Points in time and lengths of time, in nanoseconds.

use vstd::prelude::*;

verus! {

/// Largest point in time: the last nanosecond of the largest 64-bit second.
pub const TIME_POINT_MAX: i128 = 9_223_372_036_854_775_807_999_999_999;

/// Smallest point in time: the first nanosecond of the smallest 64-bit second.
pub const TIME_POINT_MIN: i128 = -9_223_372_036_854_775_808_000_000_000;

/// Largest length of time.
pub const TIME_SPAN_MAX: u128 = 18_446_744_073_709_551_615_999_999_999;

/// Nanoseconds in a millisecond.
pub const NANOS_PER_MILLI: u128 = 1_000_000;

/// A point in time, counted in nanoseconds from the Unix epoch; points before it
/// are negative.
#[derive(Clone, Copy, Debug, PartialEq, Eq, PartialOrd, Ord, Hash, Structural)]
pub struct TimePoint {
    pub nanos: i128,
}

/// A length of time in nanoseconds.
#[derive(Clone, Copy, Debug, PartialEq, Eq, PartialOrd, Ord, Hash, Structural)]
pub struct TimeSpan {
    pub nanos: u128,
}

impl TimePoint {
    /// The Unix epoch.
    pub fn epoch() -> (r: TimePoint)
        ensures
            r.nanos == 0,
    {
        TimePoint { nanos: 0 }
    }

    /// The point `span` later, if that is not past [`TIME_POINT_MAX`].
    pub open spec fn plus(self, span: TimeSpan) -> Option<TimePoint> {
        if span.nanos <= TIME_SPAN_MAX && self.nanos + span.nanos <= TIME_POINT_MAX {
            Some(TimePoint { nanos: (self.nanos + span.nanos) as i128 })
        } else {
            None
        }
    }

    /// The point `span` later, or the point itself where that is out of range.
    pub open spec fn plus_or_same(self, span: TimeSpan) -> TimePoint {
        match self.plus(span) {
            Some(t) => t,
            None => self,
        }
    }

    /// The point `span` later, if that is not past [`TIME_POINT_MAX`].
    pub fn checked_add(self, span: TimeSpan) -> (r: Option<TimePoint>)
        ensures
            r == self.plus(span),
    {
        if span.nanos > TIME_SPAN_MAX {
            return None;
        }
        let step: i128 = span.nanos as i128;
        match self.nanos.checked_add(step) {
            Some(nanos) => if nanos <= TIME_POINT_MAX {
                Some(TimePoint { nanos })
            } else {
                None
            },
            None => None,
        }
    }

    /// The point `span` later, which is in range.
    pub fn moved_on(self, span: TimeSpan) -> (r: TimePoint)
        requires
            self.plus(span) is Some,
        ensures
            Some(r) == self.plus(span),
    {
        let step: i128 = span.nanos as i128;
        TimePoint { nanos: self.nanos + step }
    }

    /// The point `span` later, or the point itself where that is out of range.
    pub fn add_or_same(self, span: TimeSpan) -> (r: TimePoint)
        ensures
            r == self.plus_or_same(span),
    {
        match self.checked_add(span) {
            Some(t) => t,
            None => self,
        }
    }
}

impl TimePoint {
    /// The time that passed since `earlier`, unless that is the later point.
    pub open spec fn since(self, earlier: TimePoint) -> Option<TimeSpan> {
        if 0 <= self.nanos - earlier.nanos <= TIME_SPAN_MAX {
            Some(TimeSpan { nanos: (self.nanos - earlier.nanos) as u128 })
        } else {
            None
        }
    }

    /// The later of both points.
    pub open spec fn later(self, other: TimePoint) -> TimePoint {
        if self.nanos < other.nanos {
            other
        } else {
            self
        }
    }

    /// The earlier of both points.
    pub open spec fn earlier(self, other: TimePoint) -> TimePoint {
        if other.nanos < self.nanos {
            other
        } else {
            self
        }
    }

    /// The point `span` earlier, or the epoch where that is before
    /// [`TIME_POINT_MIN`].
    pub open spec fn minus(self, span: TimeSpan) -> TimePoint {
        if span.nanos <= TIME_SPAN_MAX && self.nanos - span.nanos >= TIME_POINT_MIN {
            TimePoint { nanos: (self.nanos - span.nanos) as i128 }
        } else {
            TimePoint { nanos: 0 }
        }
    }

    /// The later of both points.
    pub fn later_of(self, other: TimePoint) -> (r: TimePoint)
        ensures
            r == self.later(other),
    {
        if self.nanos < other.nanos {
            other
        } else {
            self
        }
    }

    /// The earlier of both points.
    pub fn earlier_of(self, other: TimePoint) -> (r: TimePoint)
        ensures
            r == self.earlier(other),
    {
        if other.nanos < self.nanos {
            other
        } else {
            self
        }
    }

    /// The point `span` earlier, or the epoch where that is before
    /// [`TIME_POINT_MIN`].
    pub fn sub_or_epoch(self, span: TimeSpan) -> (r: TimePoint)
        ensures
            r == self.minus(span),
    {
        if span.nanos > TIME_SPAN_MAX {
            return TimePoint { nanos: 0 };
        }
        let step: i128 = span.nanos as i128;
        match self.nanos.checked_sub(step) {
            Some(nanos) => if nanos >= TIME_POINT_MIN {
                TimePoint { nanos }
            } else {
                TimePoint { nanos: 0 }
            },
            None => TimePoint { nanos: 0 },
        }
    }

    /// The time that passed since `earlier`, unless that is the later point.
    pub fn duration_since(self, earlier: TimePoint) -> (r: Option<TimeSpan>)
        ensures
            r == self.since(earlier),
    {
        match self.nanos.checked_sub(earlier.nanos) {
            Some(nanos) => if nanos >= 0 && nanos as u128 <= TIME_SPAN_MAX {
                Some(TimeSpan { nanos: nanos as u128 })
            } else {
                None
            },
            None => None,
        }
    }
}

impl TimeSpan {
    /// A length given in milliseconds.
    pub open spec fn of_millis(millis: u64) -> TimeSpan {
        TimeSpan { nanos: (millis * NANOS_PER_MILLI) as u128 }
    }

    /// A length given in milliseconds.
    pub fn from_millis(millis: u64) -> (r: TimeSpan)
        ensures
            r == TimeSpan::of_millis(millis),
            r.nanos <= TIME_SPAN_MAX,
    {
        let m: u128 = millis as u128;
        assert(m * NANOS_PER_MILLI <= 0xffff_ffff_ffff_ffff * 1_000_000) by (nonlinear_arith)
            requires
                m <= 0xffff_ffff_ffff_ffff,
                NANOS_PER_MILLI == 1_000_000,
        ;
        TimeSpan { nanos: m * NANOS_PER_MILLI }
    }

    /// The length of no time.
    pub fn zero() -> (r: TimeSpan)
        ensures
            r.nanos == 0,
    {
        TimeSpan { nanos: 0 }
    }

    /// Whether no time passes.
    pub fn is_zero(&self) -> (r: bool)
        ensures
            r == (self.nanos == 0),
    {
        self.nanos == 0
    }

    /// `n` times the length, at most [`TIME_SPAN_MAX`].
    pub open spec fn times(self, n: u32) -> TimeSpan {
        if self.nanos * n <= TIME_SPAN_MAX {
            TimeSpan { nanos: (self.nanos * n) as u128 }
        } else {
            TimeSpan { nanos: TIME_SPAN_MAX }
        }
    }

    /// `n` times the length, at most [`TIME_SPAN_MAX`].
    pub fn saturating_mul(self, n: u32) -> (r: TimeSpan)
        ensures
            r == self.times(n),
    {
        match self.nanos.checked_mul(n as u128) {
            Some(nanos) => if nanos <= TIME_SPAN_MAX {
                TimeSpan { nanos }
            } else {
                TimeSpan { nanos: TIME_SPAN_MAX }
            },
            None => TimeSpan { nanos: TIME_SPAN_MAX },
        }
    }

    /// The sum of both lengths, at most [`TIME_SPAN_MAX`].
    pub open spec fn plus(self, other: TimeSpan) -> TimeSpan {
        if self.nanos + other.nanos <= TIME_SPAN_MAX {
            TimeSpan { nanos: (self.nanos + other.nanos) as u128 }
        } else {
            TimeSpan { nanos: TIME_SPAN_MAX }
        }
    }

    /// The sum of both lengths, at most [`TIME_SPAN_MAX`].
    pub fn saturating_add(self, other: TimeSpan) -> (r: TimeSpan)
        ensures
            r == self.plus(other),
    {
        match self.nanos.checked_add(other.nanos) {
            Some(nanos) => if nanos <= TIME_SPAN_MAX {
                TimeSpan { nanos }
            } else {
                TimeSpan { nanos: TIME_SPAN_MAX }
            },
            None => TimeSpan { nanos: TIME_SPAN_MAX },
        }
    }
}

/// Moving on and back again, and the time in between, fit together.
pub proof fn time_adds_up(t: TimePoint, span: TimeSpan, other: TimeSpan)
    requires
        TIME_POINT_MIN <= t.nanos,
        span.nanos <= TIME_SPAN_MAX,
        t.nanos + span.nanos <= TIME_POINT_MAX,
    ensures
        t.plus(span) matches Some(u) && {
            &&& u.nanos - t.nanos == span.nanos
            &&& u.since(t) == Some(span)
            &&& u.minus(span) == t
            &&& u.later(t) == u && t.later(u) == u
            &&& u.earlier(t) == t && t.earlier(u) == t
            &&& span.nanos > 0 ==> t.since(u) is None
            &&& t.plus_or_same(span) == u
        },
        t.nanos + span.nanos + other.nanos <= TIME_POINT_MAX && span.nanos + other.nanos
            <= TIME_SPAN_MAX ==> t.plus(span.plus(other)) == t.plus(span)->Some_0.plus(other),
        span.plus(other) == other.plus(span),
{
}

/// A length taken several times is the sum of that many lengths, as long as that is a
/// length; and milliseconds add up.
pub proof fn spans_add_up(span: TimeSpan, n: u32, a: u64, b: u64)
    requires
        n < u32::MAX,
        a + b <= u64::MAX,
    ensures
        span.times(0).nanos == 0,
        span.nanos * (n + 1) <= TIME_SPAN_MAX ==> span.times((n + 1) as u32) == span.times(n).plus(
            span,
        ),
        TimeSpan::of_millis(a).plus(TimeSpan::of_millis(b)) == TimeSpan::of_millis((a + b) as u64),
        TimeSpan::of_millis(1).nanos == 1_000_000,
{
    let x = span.nanos as int;
    assert(x * (n + 1) == x * n + x) by (nonlinear_arith);
    assert(x * n >= 0) by (nonlinear_arith)
        requires
            x >= 0,
            n >= 0,
    ;
    assert(x * 0 == 0);
}

} // verus!
