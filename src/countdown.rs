//! A one-shot countdown measured in microseconds: the reaction delay of an
//! enemy, a weapon cooldown, the duration of a power-up.
use vstd::prelude::*;

verus! {

/// A timer that runs from zero up to its duration and then stays finished
/// until it is reset.
#[derive(Clone, Copy, Debug, PartialEq, Eq, Structural)]
pub struct Countdown {
    pub duration: u64,
    pub elapsed: u64,
    pub finished: bool,
    pub just_finished: bool,
}

/// The countdown after one tick of `delta` microseconds.
pub open spec fn ticked(c: Countdown, delta: u64) -> Countdown {
    if c.finished {
        Countdown { just_finished: false, ..c }
    } else if c.elapsed + delta >= c.duration {
        Countdown { duration: c.duration, elapsed: c.duration, finished: true, just_finished: true }
    } else {
        Countdown {
            duration: c.duration,
            elapsed: (c.elapsed + delta) as u64,
            finished: false,
            just_finished: false,
        }
    }
}

/// A countdown of `duration` microseconds that has not started.
pub open spec fn fresh(duration: u64) -> Countdown {
    Countdown { duration, elapsed: 0, finished: false, just_finished: false }
}

/// The countdown started over, with its duration kept.
pub open spec fn restarted(c: Countdown) -> Countdown {
    fresh(c.duration)
}

/// The countdown after ticks of the given lengths, in order.
pub open spec fn ticks_over(c: Countdown, deltas: Seq<u64>) -> Countdown
    decreases deltas.len(),
{
    if deltas.len() == 0 {
        c
    } else {
        ticks_over(ticked(c, deltas[0]), deltas.drop_first())
    }
}

/// The sum of a run of tick lengths.
pub open spec fn total(deltas: Seq<u64>) -> int
    decreases deltas.len(),
{
    if deltas.len() == 0 {
        0
    } else {
        deltas[0] + total(deltas.drop_first())
    }
}

/// A countdown is never early: one that has not finished finishes over a
/// run of ticks only when their lengths add up to at least what is left of
/// its duration.
pub proof fn lemma_countdown_not_early(c: Countdown, deltas: Seq<u64>)
    requires
        !c.finished,
        c.elapsed <= c.duration,
    ensures
        ticks_over(c, deltas).finished ==> c.elapsed + total(deltas) >= c.duration,
    decreases deltas.len(),
{
    if deltas.len() > 0 {
        let next = ticked(c, deltas[0]);
        lemma_total_nonneg(deltas.drop_first());
        if !next.finished {
            lemma_countdown_not_early(next, deltas.drop_first());
        }
    }
}

proof fn lemma_total_nonneg(deltas: Seq<u64>)
    ensures
        total(deltas) >= 0,
    decreases deltas.len(),
{
    if deltas.len() > 0 {
        lemma_total_nonneg(deltas.drop_first());
    }
}

impl Countdown {
    /// A countdown of `duration` microseconds that has not started.
    pub fn new(duration: u64) -> (r: Countdown)
        ensures
            r == fresh(duration),
    {
        Countdown { duration, elapsed: 0, finished: false, just_finished: false }
    }

    /// Advances the countdown by `delta` microseconds; returns whether it
    /// finished during this tick.
    pub fn tick(&mut self, delta: u64) -> (r: bool)
        ensures
            *final(self) == ticked(*old(self), delta),
            r == final(self).just_finished,
    {
        if self.finished {
            self.just_finished = false;
        } else if delta >= self.duration || self.elapsed >= self.duration - delta {
            self.elapsed = self.duration;
            self.finished = true;
            self.just_finished = true;
        } else {
            self.elapsed = self.elapsed + delta;
            self.just_finished = false;
        }
        self.just_finished
    }

    pub fn finished(&self) -> (r: bool)
        ensures
            r == self.finished,
    {
        self.finished
    }

    pub fn just_finished(&self) -> (r: bool)
        ensures
            r == self.just_finished,
    {
        self.just_finished
    }

    /// Starts the countdown over from zero.
    pub fn reset(&mut self)
        ensures
            *final(self) == restarted(*old(self)),
    {
        self.elapsed = 0;
        self.finished = false;
        self.just_finished = false;
    }

    pub fn duration(&self) -> (r: u64)
        ensures
            r == self.duration,
    {
        self.duration
    }

    /// Changes the duration and keeps the elapsed time and the state.
    pub fn set_duration(&mut self, duration: u64)
        ensures
            *final(self) == (Countdown { duration, ..*old(self) }),
    {
        self.duration = duration;
    }
}

} // verus!
