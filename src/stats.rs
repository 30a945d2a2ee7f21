//! Session statistics of one run through the level.
use vstd::prelude::*;

verus! {

/// Counters of a run, its duration and the resulting accuracy.
#[derive(Clone, Copy, Debug, PartialEq, Eq, Structural)]
pub struct Stats {
    /// Run time so far, in microseconds.
    pub elapsed: u64,
    pub running: bool,
    pub enemies_killed: u16,
    pub small_powerup_used: u16,
    pub small_powerup_collected: u16,
    pub big_powerup_used: u16,
    pub big_powerup_crafted: u16,
    pub damage_taken: i64,
    pub shot_fired: u16,
    /// Percentage, set when the run ends.
    pub shot_accuracy: u32,
}

/// `c + n`, held at the largest `u16`.
pub open spec fn bumped(c: u16, n: int) -> u16 {
    if c + n > u16::MAX { u16::MAX } else { (c + n) as u16 }
}

/// Adds `n` to a counter, holding it at the largest `u16`.
pub fn bump(c: u16, n: usize) -> (r: u16)
    ensures
        r == bumped(c, n as int),
{
    if n >= (u16::MAX - c) as usize {
        u16::MAX
    } else {
        c + n as u16
    }
}

/// The statistics of a run that has just started.
pub open spec fn fresh_stats() -> Stats {
    Stats {
        elapsed: 0,
        running: true,
        enemies_killed: 0,
        small_powerup_used: 0,
        small_powerup_collected: 0,
        big_powerup_used: 0,
        big_powerup_crafted: 0,
        damage_taken: 0,
        shot_fired: 0,
        shot_accuracy: 0,
    }
}

impl Stats {
    pub fn new() -> (r: Stats)
        ensures
            r == fresh_stats(),
    {
        Stats {
            elapsed: 0,
            running: true,
            enemies_killed: 0,
            small_powerup_used: 0,
            small_powerup_collected: 0,
            big_powerup_used: 0,
            big_powerup_crafted: 0,
            damage_taken: 0,
            shot_fired: 0,
            shot_accuracy: 0,
        }
    }
}

/// Zeroes every counter and restarts the run time.
pub fn reset_stats(stats: &mut Stats)
    ensures
        *final(stats) == fresh_stats(),
{
    *stats = Stats::new();
}

/// Adds `delta` microseconds to the run time while the run goes on.
pub fn update_stats(stats: &mut Stats, delta: u64)
    ensures
        *final(stats) == (Stats {
            elapsed: if !old(stats).running {
                old(stats).elapsed
            } else if old(stats).elapsed + delta > u64::MAX {
                u64::MAX
            } else {
                (old(stats).elapsed + delta) as u64
            },
            ..*old(stats)
        }),
{
    if stats.running {
        stats.elapsed = stats.elapsed.saturating_add(delta);
    }
}

/// Ends the run: stops the run time and, when shots were fired, sets the
/// accuracy to the whole number of kills per shot, as a percentage.
pub fn calculate_stats(stats: &mut Stats)
    ensures
        *final(stats) == (Stats {
            running: false,
            shot_accuracy: if old(stats).shot_fired != 0 {
                ((old(stats).enemies_killed / old(stats).shot_fired) * 100) as u32
            } else {
                old(stats).shot_accuracy
            },
            ..*old(stats)
        }),
{
    stats.running = false;
    if stats.shot_fired != 0 {
        stats.shot_accuracy = (stats.enemies_killed / stats.shot_fired) as u32 * 100;
    }
}

} // verus!
