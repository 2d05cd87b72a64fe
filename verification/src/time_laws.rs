//! What the calls on spans and points in time come to, in numbers.

use crate::time::{
    elapsed_between, Duration, Instant, MAX_POINT, MAX_SPAN, MIN_POINT, NANOS_PER_MILLI,
    NANOS_PER_SEC,
};
use vstd::prelude::*;

verus! {

/// A second has a thousand million nanoseconds and a thousand milliseconds. The longest span is the
/// last nanosecond of `u64::MAX` seconds; the points in time reach as far as `i64` seconds do.
pub proof fn law_units_and_limits()
    ensures
        NANOS_PER_SEC == 1_000_000_000,
        NANOS_PER_SEC == 1_000 * NANOS_PER_MILLI,
        MAX_SPAN == u64::MAX * 1_000_000_000 + 999_999_999,
        MIN_POINT == i64::MIN * 1_000_000_000,
        MAX_POINT == i64::MAX * 1_000_000_000 + 999_999_999,
{
}

/// The time between two points is their difference, and none at all from a later to an earlier one.
pub proof fn law_elapsed_is_the_difference(earlier: int, later: int)
    ensures
        earlier <= later ==> elapsed_between(earlier, later) == later - earlier,
        later <= earlier ==> elapsed_between(earlier, later) == 0,
{
}

/// The times between three points in order add up, and none changes if all points are moved by the
/// same span.
pub proof fn law_elapsed_adds_up(first: int, second: int, third: int, shift: int)
    requires
        first <= second <= third,
    ensures
        elapsed_between(first, third) == elapsed_between(first, second) + elapsed_between(
            second,
            third,
        ),
        elapsed_between(first + shift, second + shift) == elapsed_between(first, second),
        elapsed_between(second + shift, first + shift) == elapsed_between(second, first),
{
}

/// The two parts of a span make it up, and make up the span they were taken for.
pub proof fn law_span_is_made_of_its_parts(
    span: Duration,
    secs: u64,
    subsec_nanos: u32,
    again: Option<Duration>,
)
    requires
        call_ensures(Duration::as_secs, (&span,), secs),
        call_ensures(Duration::subsec_nanos, (&span,), subsec_nanos),
        call_ensures(Duration::from_parts, (secs, subsec_nanos), again),
    ensures
        subsec_nanos < 1_000_000_000,
        span@ == secs * 1_000_000_000 + subsec_nanos,
        again matches Some(same) && same@ == span@,
{
}

/// A span of seconds or milliseconds is as long as they are.
pub proof fn law_span_is_as_long_as_its_units(
    count: u64,
    in_secs: Duration,
    in_millis: Duration,
    part: u32,
    in_parts: Option<Duration>,
)
    requires
        call_ensures(Duration::from_secs, (count,), in_secs),
        call_ensures(Duration::from_millis, (count,), in_millis),
        call_ensures(Duration::from_parts, (count, part), in_parts),
    ensures
        in_secs@ == count * 1_000_000_000,
        in_millis@ == count * 1_000_000,
        in_parts is Some <==> part < 1_000_000_000,
        in_parts matches Some(span) ==> span@ == count * 1_000_000_000 + part,
{
}

/// One span exceeds another exactly if it is longer; the empty span is the one that exceeds none.
pub proof fn law_spans_are_compared_by_length(a: Duration, b: Duration, more: bool, none: bool)
    requires
        call_ensures(Duration::exceeds, (&a, &b), more),
        call_ensures(Duration::is_zero, (&a,), none),
    ensures
        more <==> a@ > b@,
        none <==> a@ == 0,
{
}

/// A span is doubled exactly if the double is no longer than the longest span.
pub proof fn law_double_is_twice_the_span(span: Duration, double: Option<Duration>)
    requires
        call_ensures(Duration::checked_double, (&span,), double),
    ensures
        double is Some <==> span@ + span@ <= 18_446_744_073_709_551_615_999_999_999,
        double matches Some(d) ==> d@ == span@ + span@,
{
}

/// The origin is the point zero, and points after it are counted in nanoseconds from it, up to the
/// latest point.
pub proof fn law_points_are_counted_from_the_origin(origin: Instant, nanos: u128, point: Instant)
    requires
        call_ensures(Instant::origin, (), origin),
        call_ensures(Instant::after_origin, (nanos,), point),
    ensures
        origin@ == 0,
        nanos <= 9_223_372_036_854_775_807_999_999_999 ==> point@ - origin@ == nanos,
        nanos > 9_223_372_036_854_775_807_999_999_999 ==> point@
            == 9_223_372_036_854_775_807_999_999_999,
{
}

/// A point that lies a span later, or earlier, is there unless it lies beyond the latest, or the
/// earliest, point.
pub proof fn law_points_are_moved_by_spans(
    point: Instant,
    span: Duration,
    later: Option<Instant>,
    earlier: Option<Instant>,
)
    requires
        call_ensures(Instant::checked_add, (&point, span), later),
        call_ensures(Instant::checked_sub, (&point, span), earlier),
    ensures
        later is Some <==> point@ + span@ <= 9_223_372_036_854_775_807_999_999_999,
        later matches Some(l) ==> l@ == point@ + span@,
        earlier is Some <==> point@ - span@ >= -9_223_372_036_854_775_808_000_000_000,
        earlier matches Some(e) ==> e@ == point@ - span@,
{
}

/// The time since an earlier point is the difference of the two; it is none exactly if the point
/// does not lie before.
pub proof fn law_duration_since_is_the_difference(
    later: Instant,
    earlier: Instant,
    since: Duration,
    before: bool,
)
    requires
        call_ensures(Instant::duration_since, (&later, earlier), since),
        call_ensures(Instant::is_before, (&earlier, &later), before),
    ensures
        before <==> earlier@ < later@,
        earlier@ <= later@ ==> since@ == later@ - earlier@,
        since@ == 0 <==> !before,
{
}

/// The time since a point, at a point that lies a span later, is that span.
pub proof fn law_duration_since_undoes_adding(
    point: Instant,
    span: Duration,
    later: Instant,
    since: Duration,
)
    requires
        call_ensures(Instant::checked_add, (&point, span), Some(later)),
        call_ensures(Instant::duration_since, (&later, point), since),
    ensures
        since@ == span@,
{
}

} // verus!
