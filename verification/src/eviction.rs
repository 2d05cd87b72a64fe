//! When to look for stale responses next.

use crate::time::{Duration, MAX_SPAN, NANOS_PER_SEC};
use vstd::arithmetic::power2::{lemma_pow2_unfold, pow2};
use vstd::prelude::*;

verus! {

/// What came of looking for stale responses.
#[derive(Clone, Copy, Debug, PartialEq, Eq, Structural)]
pub enum Sweep {
    /// Some were dropped.
    Evicted,
    /// There were none.
    Idle,
    /// The cache was in use, so nobody looked.
    Busy,
}

/// The pause with which a schedule starts: twice the whole seconds of the time to live.
pub open spec fn first_pause(ttl: nat) -> nat {
    2 * (ttl / (NANOS_PER_SEC as nat)) * (NANOS_PER_SEC as nat)
}

/// The pause that follows a sweep.
pub open spec fn next_pause(first: nat, pause: nat, sweep: Sweep) -> nat {
    match sweep {
        Sweep::Evicted => first,
        Sweep::Idle => 2 * pause,
        Sweep::Busy => pause,
    }
}

/// The pause that follows a number of sweeps.
pub open spec fn pause_after(first: nat, sweeps: Seq<Sweep>) -> nat
    decreases sweeps.len(),
{
    if sweeps.len() == 0 {
        first
    } else {
        next_pause(first, pause_after(first, sweeps.drop_last()), sweeps.last())
    }
}

/// How many sweeps found nothing since one last found something.
pub open spec fn idle_streak(sweeps: Seq<Sweep>) -> nat
    decreases sweeps.len(),
{
    if sweeps.len() == 0 {
        0
    } else {
        match sweeps.last() {
            Sweep::Evicted => 0,
            Sweep::Idle => idle_streak(sweeps.drop_last()) + 1,
            Sweep::Busy => idle_streak(sweeps.drop_last()),
        }
    }
}

/// A schedule of sweeps. The pause between them starts at twice the whole seconds of the time to
/// live, doubles while there is nothing to drop, and starts over once there is.
pub struct EvictionSchedule {
    first: Duration,
    pause: Duration,
}

impl EvictionSchedule {
    /// The pause with which the schedule starts.
    pub closed spec fn first(self) -> nat {
        self.first@
    }

    /// The pause before the next sweep.
    pub closed spec fn next(self) -> nat {
        self.pause@
    }

    /// A schedule for a cache with this time to live.
    pub fn new(time_to_live: Duration) -> (r: Self)
        requires
            2 * (time_to_live@ / (NANOS_PER_SEC as nat)) <= u64::MAX,
        ensures
            r.first() == first_pause(time_to_live@),
            r.next() == r.first(),
    {
        let first = Duration::from_secs(2 * time_to_live.as_secs());
        EvictionSchedule { first, pause: first }
    }

    /// How long to wait before the next sweep.
    pub fn pause(&self) -> (r: Duration)
        ensures
            r@ == self.next(),
    {
        self.pause
    }

    /// Takes note of what came of a sweep.
    pub fn advance(&mut self, sweep: Sweep)
        requires
            sweep is Idle ==> 2 * old(self).next() <= MAX_SPAN,
        ensures
            final(self).first() == old(self).first(),
            final(self).next() == next_pause(old(self).first(), old(self).next(), sweep),
    {
        match sweep {
            Sweep::Evicted => {
                self.pause = self.first;
            },
            Sweep::Idle => {
                self.pause = self.pause.checked_double().unwrap();
            },
            Sweep::Busy => {},
        }
    }
}

/// For a time to live of `secs` whole seconds and a part of another, the first pause is twice the
/// whole seconds: no more than twice the time to live, and less than two seconds short of it.
pub proof fn law_first_pause_is_twice_the_whole_seconds(secs: nat, nanos: nat)
    requires
        nanos < 1_000_000_000,
    ensures
        first_pause(secs * 1_000_000_000 + nanos) == 2 * secs * 1_000_000_000,
        first_pause(secs * 1_000_000_000 + nanos) <= 2 * (secs * 1_000_000_000 + nanos),
        first_pause(secs * 1_000_000_000 + nanos) > 2 * (secs * 1_000_000_000 + nanos
            - 1_000_000_000),
{
    assert((secs * 1_000_000_000 + nanos) / 1_000_000_000 == secs);
}

/// With no sweep the pause is the first one. A sweep that found something brings it back, one that
/// found nothing doubles it, and one that did not take place leaves it.
pub proof fn law_each_sweep_sets_the_pause(first: nat, sweeps: Seq<Sweep>)
    ensures
        pause_after(first, Seq::empty()) == first,
        pause_after(first, sweeps.push(Sweep::Evicted)) == first,
        pause_after(first, sweeps.push(Sweep::Idle)) == pause_after(first, sweeps) + pause_after(
            first,
            sweeps,
        ),
        pause_after(first, sweeps.push(Sweep::Busy)) == pause_after(first, sweeps),
{
    assert(sweeps.push(Sweep::Evicted).drop_last() =~= sweeps);
    assert(sweeps.push(Sweep::Idle).drop_last() =~= sweeps);
    assert(sweeps.push(Sweep::Busy).drop_last() =~= sweeps);
}

/// A new schedule waits for twice the whole seconds of the time to live.
pub proof fn law_new_schedule_waits_twice_the_whole_seconds(
    ttl: Duration,
    secs: u64,
    schedule: EvictionSchedule,
    pause: Duration,
)
    requires
        call_ensures(Duration::as_secs, (&ttl,), secs),
        call_ensures(EvictionSchedule::new, (ttl,), schedule),
        call_ensures(EvictionSchedule::pause, (&schedule,), pause),
    ensures
        pause@ == 2 * secs * 1_000_000_000,
        pause@ <= 2 * ttl@,
        pause@ + 2_000_000_000 > 2 * ttl@,
        schedule.first() == pause@,
{
    let nanos = (ttl@ - secs * 1_000_000_000) as nat;
    law_first_pause_is_twice_the_whole_seconds(secs as nat, nanos);
}

/// A sweep that found something brings back the first pause, one that found nothing doubles the
/// pause, and one that did not take place leaves it; the first pause stays what it was.
pub proof fn law_schedule_follows_the_sweeps(
    schedule: &mut EvictionSchedule,
    sweep: Sweep,
    before: Duration,
    after: Duration,
)
    requires
        call_ensures(EvictionSchedule::pause, (&*schedule,), before),
        call_ensures(EvictionSchedule::advance, (schedule, sweep), ()),
        call_ensures(EvictionSchedule::pause, (&*final(schedule),), after),
    ensures
        final(schedule).first() == old(schedule).first(),
        sweep is Evicted ==> after@ == old(schedule).first(),
        sweep is Idle ==> after@ == before@ + before@,
        sweep is Busy ==> after@ == before@,
{
}

/// The pause doubles with every sweep that finds nothing, and only with these: it is the first
/// pause, doubled once for each of them since a sweep last found something.
pub proof fn law_pause_doubles_while_idle(first: nat, sweeps: Seq<Sweep>)
    ensures
        pause_after(first, sweeps) == first * pow2(idle_streak(sweeps)),
    decreases sweeps.len(),
{
    if sweeps.len() == 0 {
        vstd::arithmetic::power2::lemma2_to64();
        assert(first * 1 == first) by (nonlinear_arith);
    } else {
        let before = sweeps.drop_last();
        law_pause_doubles_while_idle(first, before);
        match sweeps.last() {
            Sweep::Evicted => {
                vstd::arithmetic::power2::lemma2_to64();
                assert(first * 1 == first) by (nonlinear_arith);
            },
            Sweep::Idle => {
                let n = idle_streak(before);
                lemma_pow2_unfold(n + 1);
                assert(2 * (first * pow2(n)) == first * (2 * pow2(n))) by (nonlinear_arith);
            },
            Sweep::Busy => {},
        }
    }
}

/// No pause is shorter than the first.
pub proof fn law_pause_is_never_shorter_than_the_first(first: nat, sweeps: Seq<Sweep>)
    ensures
        pause_after(first, sweeps) >= first,
    decreases sweeps.len(),
{
    if sweeps.len() > 0 {
        law_pause_is_never_shorter_than_the_first(first, sweeps.drop_last());
    }
}

} // verus!
