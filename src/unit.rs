//! Components shared by the player and the enemies: speed, weapon cooldown,
//! health and the power-up inventory.
use vstd::prelude::*;
use crate::countdown::Countdown;

verus! {

/// Movement speed, in tiles per second.
#[derive(Clone, Copy, Debug, PartialEq, Eq, Structural)]
pub struct Movement {
    pub speed: u64,
}

/// The weapon's cooldown between two shots.
#[derive(Clone, Copy, Debug, PartialEq, Eq, Structural)]
pub struct Shooting {
    pub cooldown: Countdown,
}

/// Hit points, which may fall below zero, and their ceiling.
#[derive(Clone, Copy, Debug, PartialEq, Eq, Structural)]
pub struct Health {
    health: i64,
    max_health: i64,
}

pub open spec fn sat_i64(v: int) -> int {
    if v < i64::MIN { i64::MIN as int } else if v > i64::MAX { i64::MAX as int } else { v }
}

impl Health {
    pub closed spec fn spec_health(&self) -> int {
        self.health as int
    }

    pub closed spec fn spec_max_health(&self) -> int {
        self.max_health as int
    }

    /// Full health.
    pub fn new(max_health: i64) -> (r: Health)
        ensures
            r.spec_health() == max_health,
            r.spec_max_health() == max_health,
    {
        Health { health: max_health, max_health }
    }

    /// Loses `amount` hit points; returns whether health reached zero or
    /// below.
    pub fn take_damage(&mut self, amount: i64) -> (r: bool)
        requires
            amount >= 0,
        ensures
            final(self).spec_health() == sat_i64(old(self).spec_health() - amount),
            final(self).spec_max_health() == old(self).spec_max_health(),
            r == (final(self).spec_health() <= 0),
    {
        if self.health < i64::MIN + amount {
            self.health = i64::MIN;
        } else {
            self.health = self.health - amount;
        }
        self.health <= 0
    }

    /// Gains `amount` hit points, up to the maximum.
    pub fn heal(&mut self, amount: i64)
        requires
            amount >= 0,
        ensures
            final(self).spec_health() == if old(self).spec_health() + amount > old(
                self,
            ).spec_max_health() {
                old(self).spec_max_health()
            } else {
                old(self).spec_health() + amount
            },
            final(self).spec_max_health() == old(self).spec_max_health(),
    {
        if self.health as i128 + amount as i128 > self.max_health as i128 {
            self.health = self.max_health;
        } else {
            self.health = self.health + amount;
        }
    }

    pub fn get_health(&self) -> (r: i64)
        ensures
            r == self.spec_health(),
    {
        self.health
    }

    pub fn get_max_health(&self) -> (r: i64)
        ensures
            r == self.spec_max_health(),
    {
        self.max_health
    }

    /// Health as a whole percentage of the maximum (rounded down), held
    /// between 0 and 100, for the health bar.
    pub fn percent(&self) -> (r: i64)
        ensures
            r == if self.spec_max_health() <= 0 || self.spec_health() <= 0 {
                0
            } else if self.spec_health() >= self.spec_max_health() {
                100
            } else {
                self.spec_health() * 100 / self.spec_max_health()
            },
    {
        if self.max_health <= 0 || self.health <= 0 {
            0
        } else if self.health >= self.max_health {
            100
        } else {
            let v = self.health as i128 * 100 / self.max_health as i128;
            assert(0 <= v <= 100) by (nonlinear_arith)
                requires
                    v == (self.health * 100) as int / (self.max_health as int),
                    0 < self.health < self.max_health,
            ;
            v as i64
        }
    }

    pub fn set_health(&mut self, hp: i64)
        ensures
            final(self).spec_health() == hp,
            final(self).spec_max_health() == old(self).spec_max_health(),
    {
        self.health = hp;
    }
}

/// Power-ups carried by the player.
#[derive(Clone, Copy, Debug, PartialEq, Eq, Structural)]
pub struct Inventory {
    small_powerups: usize,
    big_powerups: usize,
}

impl Inventory {
    pub closed spec fn spec_small(&self) -> nat {
        self.small_powerups as nat
    }

    pub closed spec fn spec_big(&self) -> nat {
        self.big_powerups as nat
    }

    /// One small power-up to start with.
    pub fn new() -> (r: Inventory)
        ensures
            r.spec_small() == 1,
            r.spec_big() == 0,
    {
        Inventory { small_powerups: 1, big_powerups: 0 }
    }

    pub fn get_small_powerup_quantity(&self) -> (r: usize)
        ensures
            r == self.spec_small(),
    {
        self.small_powerups
    }

    /// Takes `amount` small power-ups when there are that many; returns
    /// whether it did.
    pub fn subtract_small_powerup(&mut self, amount: usize) -> (r: bool)
        ensures
            r == (amount <= old(self).spec_small()),
            final(self).spec_small() == if r {
                old(self).spec_small() - amount
            } else {
                old(self).spec_small() as int
            },
            final(self).spec_big() == old(self).spec_big(),
    {
        if amount > self.small_powerups {
            false
        } else {
            self.small_powerups = self.small_powerups - amount;
            true
        }
    }

    pub fn add_small_powerup(&mut self, amount: usize)
        requires
            old(self).spec_small() + amount <= usize::MAX,
        ensures
            final(self).spec_small() == old(self).spec_small() + amount,
            final(self).spec_big() == old(self).spec_big(),
    {
        self.small_powerups = self.small_powerups + amount;
    }

    pub fn get_big_powerup_quantity(&self) -> (r: usize)
        ensures
            r == self.spec_big(),
    {
        self.big_powerups
    }

    /// Takes `amount` big power-ups when there are that many; returns
    /// whether it did.
    pub fn subtract_big_powerup(&mut self, amount: usize) -> (r: bool)
        ensures
            r == (amount <= old(self).spec_big()),
            final(self).spec_big() == if r {
                old(self).spec_big() - amount
            } else {
                old(self).spec_big() as int
            },
            final(self).spec_small() == old(self).spec_small(),
    {
        if amount > self.big_powerups {
            false
        } else {
            self.big_powerups = self.big_powerups - amount;
            true
        }
    }

    pub fn add_big_powerup(&mut self, amount: usize)
        requires
            old(self).spec_big() + amount <= usize::MAX,
        ensures
            final(self).spec_big() == old(self).spec_big() + amount,
            final(self).spec_small() == old(self).spec_small(),
    {
        self.big_powerups = self.big_powerups + amount;
    }
}

} // verus!
