//! Power-up effects: a closed set of kinds, each applied to the player's
//! components when taken and reverted when its duration runs out.
use vstd::prelude::*;
use crate::clock::TimeCounter;
use crate::countdown::{Countdown, fresh};
use crate::unit::{Health, Movement, Shooting};

verus! {

/// Hit points restored by a small power-up.
pub const SMALL_POWERUP_HEAL: i64 = 35;

/// The kinds of power-up.
#[derive(Clone, Copy, Debug, PartialEq, Eq, Structural)]
pub enum EffectKind {
    /// Doubles the speed and heals.
    SmallPowerup,
    /// Triples the speed, cuts the weapon cooldown to a fifth and slows time
    /// to a third.
    BigPowerup,
}

/// The player's components as one effect sees them.
pub open spec fn applied(
    kind: EffectKind,
    m: Movement,
    s: Shooting,
    t: TimeCounter,
) -> (Movement, Shooting, TimeCounter) {
    match kind {
        EffectKind::SmallPowerup => (Movement { speed: (m.speed * 2) as u64 }, s, t),
        EffectKind::BigPowerup => (
            Movement { speed: (m.speed * 3) as u64 },
            Shooting { cooldown: Countdown { duration: s.cooldown.duration / 5, ..s.cooldown } },
            TimeCounter { scale_den: (t.scale_den * 3) as u64, ..t },
        ),
    }
}

/// The components once the effect is reverted.
pub open spec fn reverted(
    kind: EffectKind,
    m: Movement,
    s: Shooting,
    t: TimeCounter,
) -> (Movement, Shooting, TimeCounter) {
    match kind {
        EffectKind::SmallPowerup => (Movement { speed: m.speed / 2 }, s, t),
        EffectKind::BigPowerup => (
            Movement { speed: m.speed / 3 },
            Shooting { cooldown: Countdown { duration: (s.cooldown.duration * 5) as u64, ..s.cooldown } },
            if t.scale_den % 3 == 0 {
                TimeCounter { scale_den: t.scale_den / 3, ..t }
            } else {
                TimeCounter { scale_num: (t.scale_num * 3) as u64, ..t }
            },
        ),
    }
}

/// The multiplications of `applied` and `reverted` fit their integers.
pub open spec fn effect_fits(m: Movement, s: Shooting, t: TimeCounter) -> bool {
    &&& m.speed * 3 <= u64::MAX
    &&& s.cooldown.duration * 5 <= u64::MAX
    &&& t.scale_den * 3 <= u64::MAX
    &&& t.scale_num * 3 <= u64::MAX
}

impl EffectKind {
    /// Applies the effect.
    pub fn apply(
        &self,
        movement: &mut Movement,
        health: &mut Health,
        shooting: &mut Shooting,
        time: &mut TimeCounter,
    )
        requires
            effect_fits(*old(movement), *old(shooting), *old(time)),
            old(time).wf(),
        ensures
            (*final(movement), *final(shooting), *final(time)) == applied(
                *self,
                *old(movement),
                *old(shooting),
                *old(time),
            ),
            final(time).wf(),
            *self is SmallPowerup ==> final(health).spec_health() == if old(health).spec_health()
                + SMALL_POWERUP_HEAL > old(health).spec_max_health() {
                old(health).spec_max_health()
            } else {
                old(health).spec_health() + SMALL_POWERUP_HEAL
            },
            *self is BigPowerup ==> *final(health) == *old(health),
            final(health).spec_max_health() == old(health).spec_max_health(),
    {
        match self {
            EffectKind::SmallPowerup => {
                movement.speed = movement.speed * 2;
                health.heal(SMALL_POWERUP_HEAL);
            },
            EffectKind::BigPowerup => {
                movement.speed = movement.speed * 3;
                let d = shooting.cooldown.duration();
                shooting.cooldown.set_duration(d / 5);
                time.scale_den = time.scale_den * 3;
            },
        }
    }

    /// Reverts the effect.
    pub fn finish(&self, movement: &mut Movement, shooting: &mut Shooting, time: &mut TimeCounter)
        requires
            effect_fits(*old(movement), *old(shooting), *old(time)),
            old(time).wf(),
        ensures
            (*final(movement), *final(shooting), *final(time)) == reverted(
                *self,
                *old(movement),
                *old(shooting),
                *old(time),
            ),
            final(time).wf(),
    {
        match self {
            EffectKind::SmallPowerup => {
                movement.speed = movement.speed / 2;
            },
            EffectKind::BigPowerup => {
                movement.speed = movement.speed / 3;
                let d = shooting.cooldown.duration();
                shooting.cooldown.set_duration(d * 5);
                if time.scale_den % 3 == 0 {
                    time.scale_den = time.scale_den / 3;
                } else {
                    time.scale_num = time.scale_num * 3;
                }
            },
        }
    }
}

/// Reverting an effect right after applying it gives back the speed and the
/// time scale exactly, and the weapon cooldown whenever its duration is a
/// multiple of five microseconds.
pub proof fn lemma_effect_round_trip(kind: EffectKind, m: Movement, s: Shooting, t: TimeCounter)
    requires
        m.speed * 3 <= u64::MAX,
        t.scale_den * 3 <= u64::MAX,
        s.cooldown.duration % 5 == 0,
    ensures
        ({
            let (m1, s1, t1) = applied(kind, m, s, t);
            reverted(kind, m1, s1, t1) == (m, s, t)
        }),
{
    let (m1, s1, t1) = applied(kind, m, s, t);
    assert((t.scale_den * 3) % 3 == 0);
    assert((m.speed * 3) / 3 == m.speed);
    assert((m.speed * 2) / 2 == m.speed);
    assert((s.cooldown.duration / 5) * 5 == s.cooldown.duration);
}

/// The effect in force on the player and how long it lasts.
pub struct EffectData {
    pub effect: Option<EffectKind>,
    pub duration: Countdown,
}

impl EffectData {
    /// No effect, with a spent zero-length duration.
    pub fn new() -> (r: EffectData)
        ensures
            r.effect is None,
            r.duration == fresh(0),
    {
        EffectData { effect: None, duration: Countdown::new(0) }
    }

    /// The share of the effect's duration still to run, as a whole
    /// percentage (rounded down), for the power-up bar; `None` when no effect
    /// is in force.
    pub fn remaining_percent(&self) -> (r: Option<u64>)
        requires
            self.duration.elapsed <= self.duration.duration,
        ensures
            r == match self.effect {
                None => None,
                Some(_) => Some(
                    if self.duration.duration == 0 {
                        0
                    } else {
                        (100 * (self.duration.duration - self.duration.elapsed) as int
                            / self.duration.duration as int) as u64
                    },
                ),
            },
    {
        match self.effect {
            None => None,
            Some(_) => {
                if self.duration.duration == 0 {
                    Some(0)
                } else {
                    let left = (self.duration.duration - self.duration.elapsed) as u128;
                    Some((100 * left / self.duration.duration as u128) as u64)
                }
            },
        }
    }

    /// Puts `effect` in force for `duration` microseconds.
    pub fn apply(
        &mut self,
        effect: Option<EffectKind>,
        movement: &mut Movement,
        health: &mut Health,
        shooting: &mut Shooting,
        time: &mut TimeCounter,
        duration: u64,
    )
        requires
            effect_fits(*old(movement), *old(shooting), *old(time)),
            old(time).wf(),
        ensures
            final(self).effect == effect,
            final(self).duration == fresh(duration),
            final(time).wf(),
            final(health).spec_max_health() == old(health).spec_max_health(),
            effect != Some(EffectKind::SmallPowerup) ==> *final(health) == *old(health),
            effect == Some(EffectKind::SmallPowerup) ==> final(health).spec_health() == if old(
                health,
            ).spec_health() + SMALL_POWERUP_HEAL > old(health).spec_max_health() {
                old(health).spec_max_health()
            } else {
                old(health).spec_health() + SMALL_POWERUP_HEAL
            },
            match effect {
                Some(k) => (*final(movement), *final(shooting), *final(time)) == applied(
                    k,
                    *old(movement),
                    *old(shooting),
                    *old(time),
                ),
                None => *final(movement) == *old(movement) && *final(shooting) == *old(shooting)
                    && *final(time) == *old(time) && *final(health) == *old(health),
            },
    {
        self.effect = effect;
        match effect {
            Some(k) => k.apply(movement, health, shooting, time),
            None => {},
        }
        self.duration = Countdown::new(duration);
    }

    /// Reverts the effect in force, if any, and clears it.
    pub fn finish(&mut self, movement: &mut Movement, shooting: &mut Shooting, time: &mut TimeCounter)
        requires
            effect_fits(*old(movement), *old(shooting), *old(time)),
            old(time).wf(),
        ensures
            final(self).effect is None,
            final(self).duration == old(self).duration,
            final(time).wf(),
            match old(self).effect {
                Some(k) => (*final(movement), *final(shooting), *final(time)) == reverted(
                    k,
                    *old(movement),
                    *old(shooting),
                    *old(time),
                ),
                None => *final(movement) == *old(movement) && *final(shooting) == *old(shooting)
                    && *final(time) == *old(time),
            },
    {
        match self.effect {
            Some(k) => k.finish(movement, shooting, time),
            None => {},
        }
        self.effect = None;
    }
}

} // verus!
