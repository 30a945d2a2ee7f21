//! The player's side of combat and pick-ups: walking, shotgun volleys,
//! taking hits, power-ups and the win condition.
use vstd::prelude::*;
use crate::bullet::Bullet;
use crate::clock::{TimeCounter, scaled_delta};
use crate::countdown::{Countdown, fresh, restarted, ticked};
use crate::effect::{EffectData, EffectKind, applied, reverted};
use crate::enemy::{Pose, bullet_from, spawn_bullet, walk_distance, MAX_WALK_SPEED};
use crate::events::{EntityId, ShootEvent, ShotEvent};
use crate::geometry::{Point, TILE_SIZE, WORLD_LIMIT, abs, dist2, distance_squared, in_world, scaled, share};
use crate::random::random_below;
use crate::stats::{Stats, bump, bumped};
use crate::unit::{Health, Inventory, Movement, Shooting};

verus! {

/// Walking speed of the player, in tiles per second.
pub const PLAYER_SPEED: u64 = 10;

/// The player's hit points at the start.
pub const PLAYER_MAX_HEALTH: i64 = 100;

/// Cooldown of the player's shotgun, in microseconds.
pub const WEAPON_COOLDOWN: u64 = 500_000;

/// Duration of a small power-up, in microseconds.
pub const SMALL_POWERUP_DURATION: u64 = 5_000_000;

/// Duration of a big power-up, in microseconds.
pub const BIG_POWERUP_DURATION: u64 = 1_666_667;

/// Small power-ups that make one big power-up.
pub const CRAFT_COST: usize = 3;

/// Pellets in one shotgun volley.
pub const VOLLEY_SIZE: usize = 4;

/// Least and largest damage of one enemy hit on the player.
pub const MIN_HIT_DAMAGE: i64 = 25;
pub const MAX_HIT_DAMAGE: i64 = 35;

/// Reach of the player for picking up powder, in world units.
pub const PICKUP_RADIUS: i64 = 25;

/// Gap kept between the player and what it walks into, in world units.
pub const PLAYER_SKIN: u64 = 1;

/// Length of the direction vector of a single pressed axis.
pub const DIRECTION_SCALE: i64 = 1000;

/// The spread of pellet `i` of a volley (counted from 1), in milliradians:
/// the pellets fan out by `i - 2` times a base angle of 20 to 30.
pub open spec fn pellet_spread(i: int, extra: int) -> int {
    (i - 2) * (20 + extra)
}

/// The pellets of a volley from `pose`, given each pellet's extra spread.
pub open spec fn volley(player: EntityId, pose: Pose, extra: Seq<u64>) -> Seq<Option<Bullet>> {
    Seq::new(extra.len(), |k: int| bullet_from(player, pose, pellet_spread(k + 1, extra[k] as int)))
}

/// A shotgun volley.
pub struct Volley {
    pub fired: ShootEvent,
    pub bullets: Vec<Bullet>,
}

/// The pellets of `shots` that lie in the world, in order.
pub open spec fn spawned(shots: Seq<Option<Bullet>>) -> Seq<Bullet>
    decreases shots.len(),
{
    if shots.len() == 0 {
        Seq::empty()
    } else {
        let rest = spawned(shots.drop_last());
        match shots.last() {
            Some(b) => rest.push(b),
            None => rest,
        }
    }
}

/// The bullets of a volley from `pose` with the given extra spread of each
/// pellet (0 to 10 milliradians).
pub fn fire_volley(player: EntityId, pose: &Pose, extra: &Vec<u64>) -> (r: Vec<Bullet>)
    requires
        pose.wf(),
        extra@.len() == VOLLEY_SIZE,
        forall|k: int| 0 <= k < extra@.len() ==> extra@[k] <= 10,
    ensures
        r@ == spawned(volley(player, *pose, extra@)),
{
    let mut bullets: Vec<Bullet> = Vec::new();
    let mut i: usize = 0;
    while i < VOLLEY_SIZE
        invariant
            pose.wf(),
            i <= VOLLEY_SIZE,
            extra@.len() == VOLLEY_SIZE,
            forall|k: int| 0 <= k < extra@.len() ==> extra@[k] <= 10,
            bullets@ == spawned(volley(player, *pose, extra@).take(i as int)),
        decreases VOLLEY_SIZE - i,
    {
        let e = extra[i] as i64;
        let k = i as i64 - 1;
        assert(-1000 <= k * (20 + e) <= 1000) by (nonlinear_arith)
            requires
                -1 <= k <= 2,
                0 <= e <= 10,
        ;
        let jitter = k * (20 + e);
        let b = spawn_bullet(player, pose, jitter);
        proof {
            let shots = volley(player, *pose, extra@);
            assert(shots.take(i + 1).drop_last() == shots.take(i as int));
            assert(shots.take(i + 1).last() == b);
        }
        match b {
            Some(b) => bullets.push(b),
            None => {},
        }
        i += 1;
    }
    proof {
        assert(volley(player, *pose, extra@).take(VOLLEY_SIZE as int) == volley(player, *pose, extra@));
    }
    bullets
}

/// One tick of the player's trigger: the cooldown runs; once it is over, a
/// press of the trigger fires a volley with random spread, counts the shot
/// and restarts the cooldown.
pub fn player_shoot(
    player: EntityId,
    pose: &Pose,
    shooting: &mut Shooting,
    stats: &mut Stats,
    trigger_pressed: bool,
    delta: u64,
) -> (r: Option<Volley>)
    requires
        pose.wf(),
    ensures
        ({
            let fire = trigger_pressed && ticked(old(shooting).cooldown, delta).finished;
            &&& (r is Some <==> fire)
            &&& final(shooting).cooldown == if fire {
                restarted(ticked(old(shooting).cooldown, delta))
            } else {
                ticked(old(shooting).cooldown, delta)
            }
            &&& *final(stats) == if fire {
                Stats { shot_fired: bumped(old(stats).shot_fired, 1), ..*old(stats) }
            } else {
                *old(stats)
            }
            &&& r matches Some(v) ==> v.fired == ShootEvent(pose.position) && exists|extra: Seq<u64>|
                extra.len() == VOLLEY_SIZE && (forall|k: int| 0 <= k < extra.len() ==> extra[k] <= 10)
                    && v.bullets@ == spawned(volley(player, *pose, extra))
        }),
{
    shooting.cooldown.tick(delta);
    if !shooting.cooldown.finished() || !trigger_pressed {
        return None;
    }
    let mut extra: Vec<u64> = Vec::new();
    let mut i: usize = 0;
    while i < VOLLEY_SIZE
        invariant
            i <= VOLLEY_SIZE,
            extra@.len() == i,
            forall|k: int| 0 <= k < extra@.len() ==> extra@[k] <= 10,
        decreases VOLLEY_SIZE - i,
    {
        extra.push(random_below(11));
        i += 1;
    }
    let bullets = fire_volley(player, pose, &extra);
    stats.shot_fired = bump(stats.shot_fired, 1);
    shooting.cooldown.reset();
    Some(Volley { fired: ShootEvent(pose.position), bullets })
}

/// The walking direction from the movement keys: `DIRECTION_SCALE` along
/// each pressed axis, opposite keys cancelling.
pub open spec fn key_direction_of(up: bool, down: bool, left: bool, right: bool) -> Point {
    Point {
        x: ((if right { DIRECTION_SCALE } else { 0 }) - (if left { DIRECTION_SCALE } else { 0 })) as i64,
        y: ((if up { DIRECTION_SCALE } else { 0 }) - (if down { DIRECTION_SCALE } else { 0 })) as i64,
    }
}

pub fn key_direction(up: bool, down: bool, left: bool, right: bool) -> (r: Point)
    ensures
        r == key_direction_of(up, down, left, right),
{
    let x = (if right { DIRECTION_SCALE } else { 0 }) - (if left { DIRECTION_SCALE } else { 0 });
    let y = (if up { DIRECTION_SCALE } else { 0 }) - (if down { DIRECTION_SCALE } else { 0 });
    Point { x, y }
}

/// The integer length of a key direction: 1000 along one axis, 1414 along a
/// diagonal, 0 when no key moves the player.
pub open spec fn direction_length(d: Point) -> int {
    if d.x == 0 && d.y == 0 {
        0
    } else if d.x == 0 || d.y == 0 {
        DIRECTION_SCALE as int
    } else {
        1414
    }
}

/// The player's move along one axis, whose direction coordinate is
/// `component` of a key direction `d`: the axis' share of the reach, where
/// the reach is the time of impact of the sweep along that axis (or the full
/// walking distance when the sweep meets nothing), less the skin.
pub open spec fn axis_move_of(d: Point, component: i64, speed: u64, delta: u64, toi: Option<u64>) -> int {
    let most = walk_distance(speed, delta);
    let reach = match toi {
        Some(t) => if t < most { t as int } else { most },
        None => most,
    };
    let gap = if reach < PLAYER_SKIN { 0 } else { reach - PLAYER_SKIN };
    if direction_length(d) == 0 { 0 } else { scaled(component as int, gap, direction_length(d)) }
}

/// The player's move along one axis (see `axis_move_of`); `along_x` picks
/// the axis.
pub fn player_axis_move(d: Point, along_x: bool, speed: u64, delta: u64, toi: Option<u64>) -> (r: i64)
    requires
        abs(d.x as int) <= DIRECTION_SCALE,
        abs(d.y as int) <= DIRECTION_SCALE,
        d.x % DIRECTION_SCALE == 0,
        d.y % DIRECTION_SCALE == 0,
        speed <= MAX_WALK_SPEED,
    ensures
        r == axis_move_of(d, if along_x { d.x } else { d.y }, speed, delta, toi),
        abs(r as int) <= 4 * WORLD_LIMIT,
{
    let most = crate::enemy::walk_step(speed, delta);
    let reach = match toi {
        Some(t) => if t < most { t } else { most },
        None => most,
    };
    let gap = if reach < PLAYER_SKIN { 0 } else { reach - PLAYER_SKIN };
    let len: u64 = if d.x == 0 && d.y == 0 {
        0
    } else if d.x == 0 || d.y == 0 {
        1000
    } else {
        1414
    };
    if len == 0 {
        return 0;
    }
    let c = if along_x { d.x } else { d.y };
    share(c, gap, len)
}

/// The footstep timer of one tick in which the movement keys were pressed:
/// it runs, and when the player did move and it is over, a footstep sounds
/// and it restarts. Returns whether a footstep sounds.
pub fn footstep_due(timer: &mut Countdown, moved: bool, delta: u64) -> (r: bool)
    ensures
        r == (moved && ticked(*old(timer), delta).finished),
        *final(timer) == if r { restarted(ticked(*old(timer), delta)) } else { ticked(*old(timer), delta) },
{
    timer.tick(delta);
    if moved && timer.finished() {
        timer.reset();
        true
    } else {
        false
    }
}

/// The facing of the player aiming at the cursor `cursor` (window
/// coordinates, origin at the bottom left) of a window of the given size.
pub fn aim_facing(cursor: Point, width: i64, height: i64) -> (r: Point)
    requires
        in_world(cursor),
        0 <= width <= WORLD_LIMIT,
        0 <= height <= WORLD_LIMIT,
    ensures
        r == (Point { x: (cursor.x - width / 2) as i64, y: (cursor.y - height / 2) as i64 }),
{
    Point { x: cursor.x - width / 2, y: cursor.y - height / 2 }
}

/// An enemy hit of `damage` hit points on the player: the damage taken is
/// counted, up to the health that was left; returns whether the player died.
pub fn take_hit(health: &mut Health, stats: &mut Stats, damage: i64) -> (r: bool)
    requires
        MIN_HIT_DAMAGE <= damage <= MAX_HIT_DAMAGE,
        old(stats).damage_taken <= i64::MAX - MAX_HIT_DAMAGE,
        old(health).spec_health() >= 0,
    ensures
        final(health).spec_health() == old(health).spec_health() - damage,
        final(health).spec_max_health() == old(health).spec_max_health(),
        *final(stats) == (Stats {
            damage_taken: (old(stats).damage_taken + if damage < old(health).spec_health() {
                damage as int
            } else {
                old(health).spec_health()
            }) as i64,
            ..*old(stats)
        }),
        r == (final(health).spec_health() <= 0),
{
    let h = health.get_health();
    let counted = if damage < h { damage } else { h };
    stats.damage_taken = stats.damage_taken + counted;
    health.take_damage(damage)
}

/// Health, damage counted and death after the hits `hits` on `player`,
/// the `i`-th dealing `damages[i]` when it is aimed at the player: each
/// lowers health by its damage and counts that damage, up to the health that
/// was left. Hits that land once the player is dead are ignored.
pub open spec fn after_player_hits(
    health: int,
    taken: int,
    dead: bool,
    player: EntityId,
    hits: Seq<ShotEvent>,
    damages: Seq<i64>,
) -> (int, int, bool)
    decreases hits.len(),
{
    if hits.len() == 0 || damages.len() == 0 {
        (health, taken, dead)
    } else {
        let d = damages[0] as int;
        let (h1, t1, dead1) = if hits[0].0 == player && !dead {
            (health - d, taken + if d < health { d } else { health }, health - d <= 0)
        } else {
            (health, taken, dead)
        };
        after_player_hits(h1, t1, dead1, player, hits.drop_first(), damages.drop_first())
    }
}

/// Applies the hits `hits` on `player`, the `i`-th dealing `damages[i]`;
/// returns whether health reached zero.
pub fn apply_player_hits(
    player: EntityId,
    health: &mut Health,
    stats: &mut Stats,
    hits: &Vec<ShotEvent>,
    damages: &Vec<i64>,
) -> (r: bool)
    requires
        damages@.len() == hits@.len(),
        forall|i: int| 0 <= i < damages@.len() ==> MIN_HIT_DAMAGE <= #[trigger] damages@[i] <= MAX_HIT_DAMAGE,
        old(health).spec_health() >= 0,
        old(stats).damage_taken + MAX_HIT_DAMAGE * hits@.len() <= i64::MAX,
    ensures
        (final(health).spec_health(), final(stats).damage_taken as int, r) == after_player_hits(
            old(health).spec_health(),
            old(stats).damage_taken as int,
            false,
            player,
            hits@,
            damages@,
        ),
        final(health).spec_max_health() == old(health).spec_max_health(),
        *final(stats) == (Stats { damage_taken: final(stats).damage_taken, ..*old(stats) }),
{
    let mut dead = false;
    let mut i: usize = 0;
    assert(hits@.skip(0) == hits@);
    assert(damages@.skip(0) == damages@);
    while i < hits.len()
        invariant
            i <= hits@.len(),
            damages@.len() == hits@.len(),
            forall|k: int| 0 <= k < damages@.len() ==> MIN_HIT_DAMAGE <= #[trigger] damages@[k] <= MAX_HIT_DAMAGE,
            health.spec_max_health() == old(health).spec_max_health(),
            *stats == (Stats { damage_taken: stats.damage_taken, ..*old(stats) }),
            !dead ==> health.spec_health() >= 0,
            stats.damage_taken <= old(stats).damage_taken + MAX_HIT_DAMAGE * i,
            old(stats).damage_taken + MAX_HIT_DAMAGE * hits@.len() <= i64::MAX,
            after_player_hits(
                health.spec_health(),
                stats.damage_taken as int,
                dead,
                player,
                hits@.skip(i as int),
                damages@.skip(i as int),
            ) == after_player_hits(
                old(health).spec_health(),
                old(stats).damage_taken as int,
                false,
                player,
                hits@,
                damages@,
            ),
        decreases hits@.len() - i,
    {
        proof {
            assert(hits@.skip(i as int).drop_first() == hits@.skip(i + 1));
            assert(damages@.skip(i as int).drop_first() == damages@.skip(i + 1));
            assert(hits@.skip(i as int)[0] == hits@[i as int]);
            assert(damages@.skip(i as int)[0] == damages@[i as int]);
            assert(MAX_HIT_DAMAGE * (i + 1) == MAX_HIT_DAMAGE * i + MAX_HIT_DAMAGE);
        }
        if hits[i].0 == player && !dead {
            dead = take_hit(health, stats, damages[i]);
        }
        i += 1;
    }
    proof {
        assert(hits@.skip(hits@.len() as int).len() == 0);
    }
    dead
}

/// The player, `player`, takes every hit aimed at it among `hits`, each of a
/// random damage from `MIN_HIT_DAMAGE` to `MAX_HIT_DAMAGE`, as
/// `apply_player_hits` says; returns whether health reached zero.
pub fn player_get_shot(player: EntityId, health: &mut Health, stats: &mut Stats, hits: &Vec<ShotEvent>) -> (r: bool)
    requires
        old(health).spec_health() >= 0,
        old(stats).damage_taken + MAX_HIT_DAMAGE * hits@.len() <= i64::MAX,
    ensures
        exists|damages: Seq<i64>|
            damages.len() == hits@.len() && (forall|i: int|
                0 <= i < damages.len() ==> MIN_HIT_DAMAGE <= #[trigger] damages[i] <= MAX_HIT_DAMAGE)
                && (final(health).spec_health(), final(stats).damage_taken as int, r)
                == after_player_hits(
                old(health).spec_health(),
                old(stats).damage_taken as int,
                false,
                player,
                hits@,
                damages,
            ),
        final(health).spec_max_health() == old(health).spec_max_health(),
        *final(stats) == (Stats { damage_taken: final(stats).damage_taken, ..*old(stats) }),
{
    let mut damages: Vec<i64> = Vec::new();
    let mut i: usize = 0;
    while i < hits.len()
        invariant
            i <= hits@.len(),
            damages@.len() == i,
            forall|k: int| 0 <= k < damages@.len() ==> MIN_HIT_DAMAGE <= #[trigger] damages@[k] <= MAX_HIT_DAMAGE,
        decreases hits@.len() - i,
    {
        let roll = random_below((MAX_HIT_DAMAGE - MIN_HIT_DAMAGE + 1) as u64) as i64;
        damages.push(MIN_HIT_DAMAGE + roll);
        i += 1;
    }
    apply_player_hits(player, health, stats, hits, &damages)
}

/// A powder bag lies within half a tile of `p` (inclusive).
pub open spec fn within_reach(p: Point) -> spec_fn((EntityId, Point)) -> bool {
    |b: (EntityId, Point)| dist2(p, b.1) <= PICKUP_RADIUS * PICKUP_RADIUS
}

/// The identifiers of a run of powder bags.
pub open spec fn bag_ids(bags: Seq<(EntityId, Point)>) -> Seq<EntityId> {
    bags.map_values(|b: (EntityId, Point)| b.0)
}

/// Picks up every powder bag within half a tile of the player (inclusive),
/// adding one small power-up each; returns the bags taken, in order.
pub fn pick_up_cocaine(
    inventory: &mut Inventory,
    stats: &mut Stats,
    player_position: Point,
    bags: &Vec<(EntityId, Point)>,
) -> (r: Vec<EntityId>)
    requires
        in_world(player_position),
        forall|i: int| 0 <= i < bags@.len() ==> in_world((#[trigger] bags@[i]).1),
        old(inventory).spec_small() + bags@.len() <= usize::MAX,
    ensures
        r@ == bag_ids(bags@.filter(within_reach(player_position))),
        final(inventory).spec_small() == old(inventory).spec_small() + r@.len(),
        final(inventory).spec_big() == old(inventory).spec_big(),
        *final(stats) == (Stats {
            small_powerup_collected: bumped(old(stats).small_powerup_collected, r@.len() as int),
            ..*old(stats)
        }),
{
    let ghost near = within_reach(player_position);
    let mut taken: Vec<EntityId> = Vec::new();
    let mut i: usize = 0;
    while i < bags.len()
        invariant
            i <= bags@.len(),
            in_world(player_position),
            forall|k: int| 0 <= k < bags@.len() ==> in_world((#[trigger] bags@[k]).1),
            near == within_reach(player_position),
            taken@ == bag_ids(bags@.take(i as int).filter(near)),
            taken@.len() <= i,
            inventory.spec_small() == old(inventory).spec_small() + taken@.len(),
            inventory.spec_big() == old(inventory).spec_big(),
            old(inventory).spec_small() + bags@.len() <= usize::MAX,
        decreases bags@.len() - i,
    {
        let (id, pos) = bags[i];
        proof {
            let s = bags@.take(i + 1);
            assert(s.drop_last() == bags@.take(i as int));
            assert(s.last() == bags@[i as int]);
            bags@.take(i as int).lemma_filter_push(bags@[i as int], near);
            assert(s == bags@.take(i as int).push(bags@[i as int]));
        }
        let ghost before = bags@.take(i as int).filter(near);
        if distance_squared(player_position, pos) <= (PICKUP_RADIUS * PICKUP_RADIUS) as u64 {
            taken.push(id);
            inventory.add_small_powerup(1);
            proof {
                assert(bag_ids(before.push(bags@[i as int])) =~= bag_ids(before).push(id));
            }
        }
        i += 1;
    }
    proof {
        assert(bags@.take(bags@.len() as int) == bags@);
    }
    stats.small_powerup_collected = bump(stats.small_powerup_collected, taken.len());
    taken
}

/// Crafts a big power-up from `CRAFT_COST` small ones when asked and
/// affordable; returns whether it did.
pub fn craft_magic_dust(inventory: &mut Inventory, stats: &mut Stats, pressed: bool) -> (r: bool)
    requires
        old(inventory).spec_big() < usize::MAX,
    ensures
        r == (pressed && old(inventory).spec_small() >= CRAFT_COST),
        final(inventory).spec_small() == if r {
            old(inventory).spec_small() - CRAFT_COST
        } else {
            old(inventory).spec_small() as int
        },
        final(inventory).spec_big() == old(inventory).spec_big() + if r { 1int } else { 0int },
        *final(stats) == if r {
            Stats { big_powerup_crafted: bumped(old(stats).big_powerup_crafted, 1), ..*old(stats) }
        } else {
            *old(stats)
        },
{
    if pressed {
        if inventory.subtract_small_powerup(CRAFT_COST) {
            inventory.add_big_powerup(1);
            stats.big_powerup_crafted = bump(stats.big_powerup_crafted, 1);
            return true;
        }
    }
    false
}

/// Whether the player stands less than a tile from some win tile.
pub fn win_condition(player_position: Point, wins: &Vec<Point>) -> (r: bool)
    requires
        in_world(player_position),
        forall|i: int| 0 <= i < wins@.len() ==> in_world(#[trigger] wins@[i]),
    ensures
        r == exists|i: int| 0 <= i < wins@.len() && dist2(player_position, #[trigger] wins@[i]) < TILE_SIZE * TILE_SIZE,
{
    let mut i: usize = 0;
    while i < wins.len()
        invariant
            i <= wins@.len(),
            in_world(player_position),
            forall|k: int| 0 <= k < wins@.len() ==> in_world(#[trigger] wins@[k]),
            forall|k: int| 0 <= k < i ==> dist2(player_position, #[trigger] wins@[k]) >= TILE_SIZE * TILE_SIZE,
        decreases wins@.len() - i,
    {
        if distance_squared(player_position, wins[i]) < (TILE_SIZE * TILE_SIZE) as u64 {
            return true;
        }
        i += 1;
    }
    false
}

/// What one tick of the power-up logic did.
#[derive(Clone, Copy, Debug, PartialEq, Eq, Structural)]
pub struct PowerupUse {
    /// The effect in force ran out and was reverted.
    pub finished: bool,
    /// The effect taken this tick.
    pub started: Option<EffectKind>,
}

/// Values small enough that an effect can be applied after another is
/// reverted without overflow.
pub open spec fn modest(m: Movement, s: Shooting, t: TimeCounter) -> bool {
    &&& m.speed <= 4_294_967_296
    &&& s.cooldown.duration <= 4_294_967_296
    &&& t.scale_num <= 4_294_967_296
    &&& 0 < t.scale_den <= 4_294_967_296
}

/// The power-up taken by a press: a small one when its key is pressed and
/// one is carried, else a big one likewise.
pub open spec fn chosen_powerup(small_pressed: bool, big_pressed: bool, inv: Inventory) -> Option<EffectKind> {
    if small_pressed && inv.spec_small() >= 1 {
        Some(EffectKind::SmallPowerup)
    } else if big_pressed && inv.spec_big() >= 1 {
        Some(EffectKind::BigPowerup)
    } else {
        None
    }
}

/// One tick of the power-up logic: the effect's duration runs on scaled
/// time and, when it runs out, the effect is reverted. With no effect in
/// force, a pressed key takes a carried power-up (small before big), which
/// is applied for its duration and counted.
pub fn use_powerup(
    inventory: &mut Inventory,
    movement: &mut Movement,
    health: &mut Health,
    shooting: &mut Shooting,
    effect_data: &mut EffectData,
    time: &mut TimeCounter,
    stats: &mut Stats,
    small_pressed: bool,
    big_pressed: bool,
) -> (r: PowerupUse)
    requires
        modest(*old(movement), *old(shooting), *old(time)),
    ensures
        ({
            let d = ticked(old(effect_data).duration, scaled_delta(*old(time)) as u64);
            let in_force = if d.just_finished { None } else { old(effect_data).effect };
            let (m1, s1, t1) = match (d.just_finished, old(effect_data).effect) {
                (true, Some(k)) => reverted(k, *old(movement), *old(shooting), *old(time)),
                _ => (*old(movement), *old(shooting), *old(time)),
            };
            let start = if in_force is Some {
                None
            } else {
                chosen_powerup(small_pressed, big_pressed, *old(inventory))
            };
            &&& r.finished == d.just_finished
            &&& r.started == start
            &&& final(effect_data).effect == if start is Some { start } else { in_force }
            &&& final(effect_data).duration == match start {
                Some(EffectKind::SmallPowerup) => fresh(SMALL_POWERUP_DURATION),
                Some(EffectKind::BigPowerup) => fresh(BIG_POWERUP_DURATION),
                None => d,
            }
            &&& (*final(movement), *final(shooting), *final(time)) == match start {
                Some(k) => applied(k, m1, s1, t1),
                None => (m1, s1, t1),
            }
            &&& final(inventory).spec_small() == old(inventory).spec_small() - if start
                == Some(EffectKind::SmallPowerup) {
                1int
            } else {
                0
            }
            &&& final(inventory).spec_big() == old(inventory).spec_big() - if start == Some(
                EffectKind::BigPowerup,
            ) {
                1int
            } else {
                0
            }
            &&& *final(stats) == match start {
                Some(EffectKind::SmallPowerup) => Stats {
                    small_powerup_used: bumped(old(stats).small_powerup_used, 1),
                    ..*old(stats)
                },
                Some(EffectKind::BigPowerup) => Stats {
                    big_powerup_used: bumped(old(stats).big_powerup_used, 1),
                    ..*old(stats)
                },
                None => *old(stats),
            }
            &&& start != Some(EffectKind::SmallPowerup) ==> *final(health) == *old(health)
            &&& final(health).spec_max_health() == old(health).spec_max_health()
        }),
{
    let delta = time.delta();
    let finished = effect_data.duration.tick(delta);
    if finished {
        effect_data.finish(movement, shooting, time);
    }
    if effect_data.effect.is_some() {
        return PowerupUse { finished, started: None };
    }
    if small_pressed && inventory.subtract_small_powerup(1) {
        effect_data.apply(
            Some(EffectKind::SmallPowerup),
            movement,
            health,
            shooting,
            time,
            SMALL_POWERUP_DURATION,
        );
        stats.small_powerup_used = bump(stats.small_powerup_used, 1);
        return PowerupUse { finished, started: Some(EffectKind::SmallPowerup) };
    }
    if big_pressed && inventory.subtract_big_powerup(1) {
        effect_data.apply(
            Some(EffectKind::BigPowerup),
            movement,
            health,
            shooting,
            time,
            BIG_POWERUP_DURATION,
        );
        stats.big_powerup_used = bump(stats.big_powerup_used, 1);
        return PowerupUse { finished, started: Some(EffectKind::BigPowerup) };
    }
    PowerupUse { finished, started: None }
}

} // verus!
