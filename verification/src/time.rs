//! Spans of time and points in time, both counted in nanoseconds.

use vstd::prelude::*;

verus! {

/// Nanoseconds in one second.
pub const NANOS_PER_SEC: u128 = 1_000_000_000;

/// Nanoseconds in one millisecond.
pub const NANOS_PER_MILLI: u128 = 1_000_000;

/// The longest span: `u64::MAX` whole seconds and one nanosecond less than another.
pub const MAX_SPAN: u128 = 18_446_744_073_709_551_615_999_999_999;

/// The earliest point in time: `i64::MIN` seconds from the origin.
pub const MIN_POINT: i128 = -9_223_372_036_854_775_808_000_000_000;

/// The latest point in time: `i64::MAX` whole seconds and one nanosecond less than another.
pub const MAX_POINT: i128 = 9_223_372_036_854_775_807_999_999_999;

/// A span of time. It is never negative and never longer than [`MAX_SPAN`].
#[derive(Clone, Copy, Debug, PartialEq, Eq)]
pub struct Duration {
    nanos: u128,
}

impl View for Duration {
    type V = nat;

    closed spec fn view(&self) -> nat {
        self.nanos as nat
    }
}

impl Duration {
    #[verifier::type_invariant]
    spec fn in_range(self) -> bool {
        self.nanos <= MAX_SPAN
    }

    /// A span of whole seconds.
    pub fn from_secs(secs: u64) -> (r: Duration)
        ensures
            r@ == secs * NANOS_PER_SEC,
    {
        Duration { nanos: secs as u128 * NANOS_PER_SEC }
    }

    /// A span of whole milliseconds.
    pub fn from_millis(millis: u64) -> (r: Duration)
        ensures
            r@ == millis * NANOS_PER_MILLI,
    {
        Duration { nanos: millis as u128 * NANOS_PER_MILLI }
    }

    /// A span of `secs` whole seconds and a part of a second. `None` if the part is a second or
    /// more.
    pub fn from_parts(secs: u64, subsec_nanos: u32) -> (r: Option<Duration>)
        ensures
            r is Some <==> subsec_nanos < NANOS_PER_SEC,
            r matches Some(d) ==> d@ == secs * NANOS_PER_SEC + subsec_nanos,
    {
        if (subsec_nanos as u128) < NANOS_PER_SEC {
            Some(Duration { nanos: secs as u128 * NANOS_PER_SEC + subsec_nanos as u128 })
        } else {
            None
        }
    }

    /// The whole seconds of the span.
    pub fn as_secs(&self) -> (r: u64)
        ensures
            r == self@ / (NANOS_PER_SEC as nat),
    {
        proof {
            use_type_invariant(self);
        }
        (self.nanos / NANOS_PER_SEC) as u64
    }

    /// What the whole seconds leave of the span, in nanoseconds.
    pub fn subsec_nanos(&self) -> (r: u32)
        ensures
            r == self@ % (NANOS_PER_SEC as nat),
    {
        (self.nanos % NANOS_PER_SEC) as u32
    }

    /// Whether the span is empty.
    pub fn is_zero(&self) -> (r: bool)
        ensures
            r == (self@ == 0),
    {
        self.nanos == 0
    }

    /// Whether this span is longer than the other.
    pub fn exceeds(&self, other: &Duration) -> (r: bool)
        ensures
            r == (self@ > other@),
    {
        self.nanos > other.nanos
    }

    /// The span twice over. `None` if that is longer than the longest span.
    pub fn checked_double(&self) -> (r: Option<Duration>)
        ensures
            r is Some <==> 2 * self@ <= MAX_SPAN,
            r matches Some(d) ==> d@ == 2 * self@,
    {
        proof {
            use_type_invariant(self);
        }
        let nanos: u128 = 2 * self.nanos;
        if nanos <= MAX_SPAN {
            Some(Duration { nanos })
        } else {
            None
        }
    }
}

/// A point in time, as a distance from some origin. Points before the origin are negative.
#[derive(Clone, Copy, Debug, PartialEq, Eq)]
pub struct Instant {
    nanos: i128,
}

impl View for Instant {
    type V = int;

    closed spec fn view(&self) -> int {
        self.nanos as int
    }
}

/// How long before `later` the point `earlier` lies; no time at all if it does not lie before it.
pub open spec fn elapsed_between(earlier: int, later: int) -> nat {
    if earlier < later {
        (later - earlier) as nat
    } else {
        0
    }
}

impl Instant {
    #[verifier::type_invariant]
    spec fn in_range(self) -> bool {
        MIN_POINT <= self.nanos <= MAX_POINT
    }

    /// The origin itself.
    pub fn origin() -> (r: Instant)
        ensures
            r@ == 0,
    {
        Instant { nanos: 0 }
    }

    /// The point that lies so many nanoseconds after the origin, or the latest point if that comes
    /// first.
    pub fn after_origin(nanos: u128) -> (r: Instant)
        ensures
            r@ == if nanos <= MAX_POINT {
                nanos as int
            } else {
                MAX_POINT as int
            },
    {
        if nanos <= MAX_POINT as u128 {
            Instant { nanos: nanos as i128 }
        } else {
            Instant { nanos: MAX_POINT }
        }
    }

    /// The point that lies a span later. `None` if it lies beyond the latest point.
    pub fn checked_add(&self, span: Duration) -> (r: Option<Instant>)
        ensures
            r is Some <==> self@ + span@ <= MAX_POINT,
            r matches Some(i) ==> i@ == self@ + span@,
    {
        proof {
            use_type_invariant(self);
            use_type_invariant(&span);
        }
        let nanos: i128 = self.nanos + span.nanos as i128;
        if nanos <= MAX_POINT {
            Some(Instant { nanos })
        } else {
            None
        }
    }

    /// The point that lies a span earlier. `None` if it lies beyond the earliest point.
    pub fn checked_sub(&self, span: Duration) -> (r: Option<Instant>)
        ensures
            r is Some <==> self@ - span@ >= MIN_POINT,
            r matches Some(i) ==> i@ == self@ - span@,
    {
        proof {
            use_type_invariant(self);
            use_type_invariant(&span);
        }
        let nanos: i128 = self.nanos - span.nanos as i128;
        if nanos >= MIN_POINT {
            Some(Instant { nanos })
        } else {
            None
        }
    }

    /// Whether this point lies before the other.
    pub fn is_before(&self, other: &Instant) -> (r: bool)
        ensures
            r == (self@ < other@),
    {
        self.nanos < other.nanos
    }

    /// How long before this point the other lies; no time at all if it does not lie before it.
    pub fn duration_since(&self, earlier: Instant) -> (r: Duration)
        ensures
            r@ == elapsed_between(earlier@, self@),
            earlier@ <= self@ ==> r@ == self@ - earlier@,
            earlier@ >= self@ ==> r@ == 0,
    {
        proof {
            use_type_invariant(self);
            use_type_invariant(&earlier);
        }
        if earlier.nanos < self.nanos {
            Duration { nanos: (self.nanos - earlier.nanos) as u128 }
        } else {
            Duration { nanos: 0 }
        }
    }
}

} // verus!
