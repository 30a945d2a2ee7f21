//! Projectiles: a bullet flies along its heading each tick and is destroyed
//! at its first hit, which it reports once, never on its own shooter.
use vstd::prelude::*;
use crate::events::{EntityId, ShotEvent};
use crate::geometry::{Point, WORLD_LIMIT, abs, in_world, isqrt, scaled, share, sqrt_floor};

verus! {

/// Speed of a bullet, in world units per second.
pub const BULLET_SPEED: u64 = 2000;

/// Largest speed a bullet may have, in world units per second.
pub const MAX_BULLET_SPEED: u64 = 1_000_000;

/// Largest absolute coordinate of a bullet's heading vector.
pub const MAX_HEADING: i64 = 2_000_000;

/// A projectile in flight (or spent, once `alive` is false).
#[derive(Clone, Copy, Debug, PartialEq, Eq, Structural)]
pub struct Bullet {
    pub position: Point,
    /// Direction of flight; only its direction matters.
    pub heading: Point,
    /// World units per second.
    pub speed: u64,
    /// The entity that fired it, which it never hits.
    pub owner: EntityId,
    pub alive: bool,
}

impl Bullet {
    pub open spec fn wf(&self) -> bool {
        &&& in_world(self.position)
        &&& abs(self.heading.x as int) <= MAX_HEADING
        &&& abs(self.heading.y as int) <= MAX_HEADING
        &&& self.speed <= MAX_BULLET_SPEED
    }
}

/// World units covered at `speed` units per second in `delta` microseconds,
/// capped at a length that leaves any point of the world.
pub open spec fn travel(speed: u64, delta: u64) -> int {
    let d = (speed * delta) / 1_000_000int;
    if d > 4 * WORLD_LIMIT { 4 * WORLD_LIMIT } else { d }
}

/// `position` moved by `dist` world units along `heading` (not moved when the
/// heading is the zero vector).
pub open spec fn moved_along(position: Point, heading: Point, dist: int) -> Point {
    let len = sqrt_floor(heading.x * heading.x + heading.y * heading.y);
    if len == 0 {
        position
    } else {
        Point {
            x: (position.x + scaled(heading.x as int, dist, len)) as i64,
            y: (position.y + scaled(heading.y as int, dist, len)) as i64,
        }
    }
}

/// One tick of a bullet, given the first entity that its sweep of this tick
/// would meet: a hit on anything but its owner destroys it and is reported;
/// otherwise it moves, and is destroyed without a report when it leaves the
/// world. A spent bullet stays as it is.
pub open spec fn bullet_step(b: Bullet, hit: Option<EntityId>, delta: u64) -> (Bullet, Option<ShotEvent>) {
    if !b.alive {
        (b, None)
    } else {
        match hit {
            Some(e) if e != b.owner => (Bullet { alive: false, ..b }, Some(ShotEvent(e))),
            _ => {
                let p = moved_along(b.position, b.heading, travel(b.speed, delta));
                if in_world(p) {
                    (Bullet { position: p, ..b }, None)
                } else {
                    (Bullet { alive: false, ..b }, None)
                }
            },
        }
    }
}

/// Advances a bullet by one tick of `delta` microseconds; `hit` is the first
/// solid entity that the sweep of this tick meets, sensors excluded.
pub fn update_bullet(bullet: &mut Bullet, hit: Option<EntityId>, delta: u64) -> (r: Option<ShotEvent>)
    requires
        old(bullet).wf(),
    ensures
        (*final(bullet), r) == bullet_step(*old(bullet), hit, delta),
        final(bullet).wf(),
{
    if !bullet.alive {
        return None;
    }
    match hit {
        Some(e) => {
            if e != bullet.owner {
                bullet.alive = false;
                return Some(ShotEvent(e));
            }
        },
        None => {},
    }
    let hx = bullet.heading.x;
    let hy = bullet.heading.y;
    assert(0 <= hx * hx <= 4_000_000_000_000) by (nonlinear_arith)
        requires
            -2_000_000 <= hx <= 2_000_000,
    ;
    assert(0 <= hy * hy <= 4_000_000_000_000) by (nonlinear_arith)
        requires
            -2_000_000 <= hy <= 2_000_000,
    ;
    let n = (hx * hx + hy * hy) as u64;
    let len = isqrt(n);
    if len == 0 {
        return None;
    }
    assert(len <= 3_000_000) by (nonlinear_arith)
        requires
            len * len <= 8_000_000_000_000,
    ;
    assert(abs(hx as int) <= len && abs(hy as int) <= len) by (nonlinear_arith)
        requires
            hx * hx + hy * hy < (len + 1) * (len + 1),
            len >= 0,
    ;
    let a = bullet.speed as u128;
    let b = delta as u128;
    assert(a * b <= 1_000_000 * 18_446_744_073_709_551_615) by (nonlinear_arith)
        requires
            a <= 1_000_000,
            b <= 18_446_744_073_709_551_615,
    ;
    let t: u128 = a * b / 1_000_000;
    let dist: u64 = if t > 67_108_864 { 67_108_864 } else { t as u64 };
    let mx = share(hx, dist, len);
    let my = share(hy, dist, len);
    let p = Point { x: bullet.position.x + mx, y: bullet.position.y + my };
    if p.is_in_world() {
        bullet.position = p;
    } else {
        bullet.alive = false;
    }
    None
}

/// The hits reported by one tick of the bullets `bs`, the `i`-th meeting
/// `hits[i]`, in the order of the bullets.
pub open spec fn tick_events(bs: Seq<Bullet>, hits: Seq<Option<EntityId>>, delta: u64) -> Seq<ShotEvent>
    decreases bs.len(),
{
    if bs.len() == 0 || hits.len() < bs.len() {
        Seq::empty()
    } else {
        let rest = tick_events(bs.drop_last(), hits, delta);
        match bullet_step(bs.last(), hits[bs.len() - 1], delta).1 {
            Some(e) => rest.push(e),
            None => rest,
        }
    }
}

/// Advances every bullet by one tick; `hits[i]` is what the sweep of
/// bullet `i` meets. Returns the hits reported, in the order of the bullets.
pub fn update_bullets(bullets: &mut Vec<Bullet>, hits: &Vec<Option<EntityId>>, delta: u64) -> (r: Vec<ShotEvent>)
    requires
        old(bullets)@.len() == hits@.len(),
        forall|i: int| 0 <= i < old(bullets)@.len() ==> (#[trigger] old(bullets)@[i]).wf(),
    ensures
        final(bullets)@.len() == old(bullets)@.len(),
        forall|i: int|
            0 <= i < old(bullets)@.len() ==> #[trigger] final(bullets)@[i] == bullet_step(
                old(bullets)@[i],
                hits@[i],
                delta,
            ).0,
        forall|i: int| 0 <= i < final(bullets)@.len() ==> (#[trigger] final(bullets)@[i]).wf(),
        r@ == tick_events(old(bullets)@, hits@, delta),
{
    let ghost before = bullets@;
    let mut events: Vec<ShotEvent> = Vec::new();
    let mut i: usize = 0;
    while i < bullets.len()
        invariant
            bullets@.len() == before.len(),
            hits@.len() == before.len(),
            i <= before.len(),
            forall|j: int| 0 <= j < i ==> #[trigger] bullets@[j] == bullet_step(before[j], hits@[j], delta).0,
            forall|j: int| i <= j < before.len() ==> #[trigger] bullets@[j] == before[j],
            forall|j: int| 0 <= j < before.len() ==> (#[trigger] before[j]).wf(),
            forall|j: int| 0 <= j < i ==> (#[trigger] bullets@[j]).wf(),
            events@ == tick_events(before.take(i as int), hits@, delta),
        decreases before.len() - i,
    {
        let mut b = bullets[i];
        let e = update_bullet(&mut b, hits[i], delta);
        bullets.set(i, b);
        proof {
            let t = before.take(i + 1);
            assert(t.drop_last() == before.take(i as int));
            assert(t.last() == before[i as int]);
        }
        match e {
            Some(e) => events.push(e),
            None => {},
        }
        i += 1;
    }
    proof {
        assert(before.take(before.len() as int) == before);
    }
    events
}

/// The hits that a bullet reports over a run of ticks, each tick given as
/// the entity its sweep meets and the elapsed microseconds.
pub open spec fn hits_over(b: Bullet, ticks: Seq<(Option<EntityId>, u64)>) -> Seq<ShotEvent>
    decreases ticks.len(),
{
    if ticks.len() == 0 {
        Seq::empty()
    } else {
        let (next, event) = bullet_step(b, ticks[0].0, ticks[0].1);
        let rest = hits_over(next, ticks.drop_first());
        match event {
            Some(e) => seq![e] + rest,
            None => rest,
        }
    }
}

/// Over its whole lifetime a bullet reports at most one hit, none once it is
/// spent, and never one on the entity that fired it.
pub proof fn lemma_bullet_hits_at_most_once(b: Bullet, ticks: Seq<(Option<EntityId>, u64)>)
    ensures
        hits_over(b, ticks).len() <= 1,
        !b.alive ==> hits_over(b, ticks).len() == 0,
        forall|i: int| 0 <= i < hits_over(b, ticks).len() ==> (#[trigger] hits_over(b, ticks)[i]).0 != b.owner,
    decreases ticks.len(),
{
    if ticks.len() > 0 {
        let (next, event) = bullet_step(b, ticks[0].0, ticks[0].1);
        lemma_bullet_hits_at_most_once(next, ticks.drop_first());
        assert(next.owner == b.owner);
        if event is Some {
            assert(!next.alive);
        }
        let rest = hits_over(next, ticks.drop_first());
        match event {
            Some(e) => {
                assert(hits_over(b, ticks) =~= seq![e] + rest);
            },
            None => {
                assert(hits_over(b, ticks) =~= rest);
            },
        }
    }
}

} // verus!
