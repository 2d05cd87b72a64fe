//! Readings of the monotonic system clock.

use crate::state::{in_order, lemma_in_order_push};
use crate::time::{Instant, MAX_POINT};
use vstd::prelude::*;

verus! {

/// A point in time of the system clock. It is carried along and handed back to the clock; what it
/// holds stays hidden.
#[verifier::external_type_specification]
#[verifier::external_body]
pub struct ExSystemInstant(std::time::Instant);

/// Calls `std::time::Instant::now`. What the clock shows is not foreseen, so nothing is claimed of
/// the result.
#[verifier::external_body]
pub(crate) fn system_now() -> (r: std::time::Instant) {
    std::time::Instant::now()
}

/// Calls `std::time::Instant::elapsed` and counts the span in nanoseconds. It rests on what the
/// clock shows at the call, so nothing is claimed of the result: in particular not that a later
/// call gives no less.
#[verifier::external_body]
pub(crate) fn system_elapsed(since: &std::time::Instant) -> (r: u128) {
    since.elapsed().as_nanos()
}

/// The system clock says that so many nanoseconds have passed since a moment; the latest point
/// stands for all that lie beyond it.
pub closed spec fn passed_since(started: std::time::Instant, point: int) -> bool {
    exists|nanos: u128| #[trigger]
        call_ensures(system_elapsed, (&started,), nanos) && point == if nanos <= MAX_POINT {
            nanos as int
        } else {
            MAX_POINT as int
        }
}

/// A clock whose origin is the moment at which it was started.
pub struct Clock {
    started: std::time::Instant,
    shown: Ghost<Seq<int>>,
}

impl Clock {
    /// The moment at which the clock was started.
    pub closed spec fn started(self) -> std::time::Instant {
        self.started
    }

    /// What the clock has shown so far, one point for each time it was read.
    pub closed spec fn shown(self) -> Seq<int> {
        self.shown@
    }

    /// The clock was started when the system clock showed its start.
    pub closed spec fn starts_now(self) -> bool {
        call_ensures(system_now, (), self.started)
    }

    /// The system clock says that this is the time that has passed since the clock was started.
    pub open spec fn shows(self, point: int) -> bool {
        passed_since(self.started(), point)
    }

    /// Starts a clock.
    pub fn start() -> (r: Clock)
        ensures
            r.starts_now(),
            r.shown() == Seq::<int>::empty(),
    {
        Clock { started: system_now(), shown: Ghost(Seq::empty()) }
    }

    /// Reads the clock: it shows a point that does not lie before the origin.
    pub fn read(&mut self) -> (r: Instant)
        ensures
            final(self).started() == old(self).started(),
            final(self).shown() == old(self).shown().push(r@),
            old(self).shows(r@),
            r@ >= 0,
    {
        let nanos: u128 = system_elapsed(&self.started);
        let r = Instant::after_origin(nanos);
        self.shown = Ghost(self.shown@.push(r@));
        r
    }
}

/// The later of two points in time.
pub open spec fn later_of(a: int, b: int) -> int {
    if a < b {
        b
    } else {
        a
    }
}

/// The latest of a point and of all that a clock showed.
pub open spec fn furthest(from: int, shown: Seq<int>) -> int
    decreases shown.len(),
{
    if shown.len() == 0 {
        from
    } else {
        later_of(furthest(from, shown.drop_last()), shown.last())
    }
}

/// The points to go by, one for each that the clock showed: where the clock falls behind a point
/// that was gone by before, or behind `from`, that point counts.
pub open spec fn times(from: int, shown: Seq<int>) -> Seq<int> {
    Seq::new(shown.len(), |i: int| furthest(from, shown.take(i + 1)))
}

/// The start of a clock is a moment that the system clock gave.
pub(crate) proof fn law_clock_start_is_a_system_moment(clock: Clock)
    requires
        clock.starts_now(),
    ensures
        call_ensures(system_now, (), clock.started()),
{
}

/// A clock starts at a moment that the system clock gave.
pub(crate) proof fn law_clock_starts_at_a_system_moment(clock: Clock)
    requires
        call_ensures(Clock::start, (), clock),
    ensures
        call_ensures(system_now, (), clock.started()),
        clock.shown().len() == 0,
{
}

/// A point that a clock shows is the number of nanoseconds that the system clock says have passed
/// since the clock was started, up to the latest point.
pub(crate) proof fn law_clock_shows_the_time_that_has_passed(clock: Clock, point: int)
    requires
        clock.shows(point),
    ensures
        exists|nanos: u128|
            {
                &&& #[trigger] call_ensures(system_elapsed, (&clock.started(),), nanos)
                &&& nanos <= 9_223_372_036_854_775_807_999_999_999 ==> point == nanos
                &&& nanos > 9_223_372_036_854_775_807_999_999_999 ==> point
                    == 9_223_372_036_854_775_807_999_999_999
            },
{
}

/// Reading a clock gives what the system clock says has passed since its start, adds it to what was
/// shown, and leaves the start.
pub(crate) proof fn law_reading_gives_the_time_that_has_passed(clock: &mut Clock, r: Instant)
    requires
        call_ensures(Clock::read, (clock,), r),
    ensures
        exists|nanos: u128|
            {
                &&& #[trigger] call_ensures(system_elapsed, (&old(clock).started(),), nanos)
                &&& nanos <= 9_223_372_036_854_775_807_999_999_999 ==> r@ == nanos
                &&& nanos > 9_223_372_036_854_775_807_999_999_999 ==> r@
                    == 9_223_372_036_854_775_807_999_999_999
            },
        final(clock).started() == old(clock).started(),
        final(clock).shown() == old(clock).shown().push(r@),
{
}

/// The later of two points is one of them, and lies before neither.
pub proof fn law_later_of_is_the_maximum(a: int, b: int)
    ensures
        later_of(a, b) >= a,
        later_of(a, b) >= b,
        later_of(a, b) == a || later_of(a, b) == b,
{
}

/// The furthest point lies before none of those it is taken from, and is one of them.
pub proof fn law_furthest_is_the_maximum(from: int, shown: Seq<int>)
    ensures
        furthest(from, shown) >= from,
        forall|i: int| 0 <= i < shown.len() ==> furthest(from, shown) >= #[trigger] shown[i],
        furthest(from, shown) == from || exists|i: int|
            0 <= i < shown.len() && furthest(from, shown) == #[trigger] shown[i],
    decreases shown.len(),
{
    if shown.len() > 0 {
        let before = shown.drop_last();
        law_furthest_is_the_maximum(from, before);
        assert forall|i: int| 0 <= i < shown.len() implies furthest(from, shown)
            >= #[trigger] shown[i] by {
            if i < before.len() {
                assert(before[i] == shown[i]);
            }
        }
        if furthest(from, shown) != from && furthest(from, shown) != shown[shown.len() - 1] {
            let i = choose|i: int|
                0 <= i < before.len() && furthest(from, before) == #[trigger] before[i];
            assert(shown[i] == before[i]);
        }
    }
}

/// There is one point to go by for each that was shown: the latest of those shown up to it, or the
/// point they start from if that is later.
pub proof fn law_times_are_the_running_maximum(from: int, shown: Seq<int>, i: int)
    requires
        0 <= i < shown.len(),
    ensures
        times(from, shown).len() == shown.len(),
        times(from, shown)[i] >= from,
        forall|j: int| 0 <= j <= i ==> times(from, shown)[i] >= #[trigger] shown[j],
        times(from, shown)[i] == from || exists|j: int|
            0 <= j <= i && times(from, shown)[i] == #[trigger] shown[j],
{
    let part = shown.take(i + 1);
    law_furthest_is_the_maximum(from, part);
    assert forall|j: int| 0 <= j <= i implies times(from, shown)[i] >= #[trigger] shown[j] by {
        assert(part[j] == shown[j]);
    }
    if times(from, shown)[i] != from {
        let j = choose|j: int| 0 <= j < part.len() && furthest(from, part) == #[trigger] part[j];
        assert(shown[j] == part[j]);
    }
}

/// One more reading adds one point to go by and leaves the earlier ones.
pub proof fn lemma_times_push(from: int, shown: Seq<int>, reading: int)
    ensures
        furthest(from, shown.push(reading)) == later_of(furthest(from, shown), reading),
        times(from, shown.push(reading)) == times(from, shown).push(
            furthest(from, shown.push(reading)),
        ),
{
    let all = shown.push(reading);
    assert(all.drop_last() =~= shown);
    assert forall|i: int| 0 <= i < shown.len() implies #[trigger] times(from, all)[i] == times(
        from,
        shown,
    )[i] by {
        assert(all.take(i + 1) =~= shown.take(i + 1));
    }
    assert(all.take(all.len() as int) =~= all);
    assert(times(from, all) =~= times(from, shown).push(furthest(from, all)));
}

/// The points to go by never go back, nor do they lie before the point they start from.
pub proof fn law_times_never_go_back(from: int, shown: Seq<int>)
    ensures
        in_order(seq![from] + times(from, shown)),
        furthest(from, shown) == (seq![from] + times(from, shown)).last(),
    decreases shown.len(),
{
    let before = shown.drop_last();
    if shown.len() > 0 {
        law_times_never_go_back(from, before);
        assert(before.push(shown.last()) =~= shown);
        lemma_times_push(from, before, shown.last());
        let point = furthest(from, shown);
        lemma_in_order_push(seq![from] + times(from, before), point);
        assert((seq![from] + times(from, before)).push(point) =~= seq![from] + times(from, shown));
    }
}

} // verus!
