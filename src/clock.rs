//! The game clock: a raw frame delta scaled by a rational time scale, so that
//! power-ups can slow the simulation down.
use vstd::prelude::*;

verus! {

pub const MICROS_PER_SECOND: u64 = 1_000_000;

/// Frame time in microseconds, with the time scale `scale_num / scale_den`.
#[derive(Clone, Copy, Debug, PartialEq, Eq, Structural)]
pub struct TimeCounter {
    pub scale_num: u64,
    pub scale_den: u64,
    pub raw_delta: u64,
    pub since_startup: u64,
}

/// The scaled frame delta, in microseconds.
pub open spec fn scaled_delta(t: TimeCounter) -> int {
    let v = (t.raw_delta * t.scale_num) as int / (t.scale_den as int);
    if v > u64::MAX { u64::MAX as int } else { v }
}

impl TimeCounter {
    /// A clock at time scale one that has not run yet.
    pub fn new() -> (r: TimeCounter)
        ensures
            r.wf(),
            r.scale_num == 1,
            r.scale_den == 1,
            r.raw_delta == 0,
            r.since_startup == 0,
    {
        TimeCounter { scale_num: 1, scale_den: 1, raw_delta: 0, since_startup: 0 }
    }

    pub open spec fn wf(&self) -> bool {
        self.scale_den > 0
    }

    /// Records a new frame of `delta` microseconds of real time.
    pub fn step(&mut self, delta: u64)
        ensures
            final(self).scale_num == old(self).scale_num,
            final(self).scale_den == old(self).scale_den,
            final(self).raw_delta == delta,
            final(self).since_startup == if old(self).since_startup + delta > u64::MAX {
                u64::MAX as int
            } else {
                old(self).since_startup + delta
            },
    {
        self.raw_delta = delta;
        self.since_startup = self.since_startup.saturating_add(delta);
    }

    /// The frame delta scaled by the time scale, in microseconds (rounded
    /// down, and capped at the largest `u64`).
    pub fn delta(&self) -> (r: u64)
        requires
            self.wf(),
        ensures
            r == scaled_delta(*self),
    {
        let a = self.raw_delta as u128;
        let b = self.scale_num as u128;
        assert(a * b <= u64::MAX * u64::MAX) by (nonlinear_arith)
            requires
                a <= u64::MAX,
                b <= u64::MAX,
        ;
        let v: u128 = a * b / self.scale_den as u128;
        if v > u64::MAX as u128 {
            u64::MAX
        } else {
            v as u64
        }
    }

    /// Whole milliseconds of real time since the clock started, as the
    /// animated shaders read it (held at the largest `u32`).
    pub fn millis_since_startup(&self) -> (r: u32)
        ensures
            r == if self.since_startup / 1000 > u32::MAX {
                u32::MAX as int
            } else {
                (self.since_startup / 1000) as int
            },
    {
        let ms = self.since_startup / 1000;
        if ms > u32::MAX as u64 {
            u32::MAX
        } else {
            ms as u32
        }
    }

    /// Whole seconds of real time since the clock started.
    pub fn seconds_since_startup(&self) -> (r: u64)
        ensures
            r == self.since_startup / MICROS_PER_SECOND,
    {
        self.since_startup / MICROS_PER_SECOND
    }
}

} // verus!
