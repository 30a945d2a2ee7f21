//! Enemy behaviour: perception of the player, the Idle / Alert / Combat state
//! machine with its reaction delay, hearing gunshots, following a path, and
//! firing.
use vstd::prelude::*;
use crate::bullet::{Bullet, BULLET_SPEED, MAX_HEADING};
use crate::countdown::{Countdown, fresh, restarted, ticked};
use crate::events::{EntityId, ShootEvent, ShotEvent};
use crate::geometry::{
    lemma_step_end_between,
    lemma_step_end_progress,
    Point,
    TILE_SIZE,
    WORLD_LIMIT,
    abs,
    between,
    dist2,
    distance_squared,
    in_world,
    isqrt,
    manhattan,
    scaled,
    share,
    sqrt_floor,
    step_end,
    step_toward,
};
use crate::nav_mesh::EnemyNavMesh;
use crate::random::random_below;
use crate::stats::{Stats, bump, bumped};
use crate::unit::{Movement, Shooting};

verus! {

/// How far an enemy sees, in world units (the length of its sight cast).
pub const ENEMY_SIGHT: i64 = 12 * TILE_SIZE;

/// How far an enemy hears a gunshot, in world units (inclusive).
pub const ENEMY_HEARING: i64 = 10 * TILE_SIZE;

/// Reaction delay between first seeing the player and the first shot, in
/// microseconds.
pub const SHOCK_DURATION: u64 = 500_000;

/// Cooldown of an enemy's weapon, in microseconds.
pub const ENEMY_COOLDOWN: u64 = 1_000_000;

/// Walking speed of an enemy, in tiles per second.
pub const ENEMY_SPEED: u64 = 3;

/// Largest speed of a walking unit, in tiles per second.
pub const MAX_WALK_SPEED: u64 = 1_000_000;

/// Distance within which a waypoint counts as reached, in world units.
pub const ARRIVAL_TOLERANCE: i64 = 1;

/// Length of a unit direction vector: headings are scaled to it.
pub const HEADING_SCALE: u64 = 1000;

/// Largest random spread of an enemy's shot, in milliradians.
pub const ENEMY_SPREAD: u64 = 50;

/// Position and facing of a unit; `facing` is a direction vector, only its
/// direction matters.
#[derive(Clone, Copy, Debug, PartialEq, Eq, Structural)]
pub struct Pose {
    pub position: Point,
    pub facing: Point,
}

impl Pose {
    pub open spec fn new_spec(position: Point) -> Pose {
        Pose { position, facing: Point { x: 0, y: 1 } }
    }

    pub open spec fn wf(&self) -> bool {
        &&& in_world(self.position)
        &&& abs(self.facing.x as int) <= 2 * WORLD_LIMIT
        &&& abs(self.facing.y as int) <= 2 * WORLD_LIMIT
    }

    /// At `position`, facing up.
    pub fn new(position: Point) -> (r: Pose)
        ensures
            r == Pose::new_spec(position),
    {
        Pose { position, facing: Point { x: 0, y: 1 } }
    }
}

/// What an enemy is doing.
pub enum EnemyAiState {
    /// No known threat.
    Idle,
    /// Walking toward a disturbance along `path`, currently toward
    /// `path[current]`.
    Alert { path: Option<Vec<Point>>, current: usize },
    /// Engaging a visible player last seen at `player_position`.
    Combat { player_position: Point },
}

/// An enemy's behaviour state and its reaction-delay timer.
pub struct Enemy {
    pub ai_state: EnemyAiState,
    pub shock_timer: Countdown,
}

/// A path whose waypoints all lie in the world and hold a current index.
pub open spec fn state_wf(s: EnemyAiState) -> bool {
    match s {
        EnemyAiState::Alert { path: Some(p), current } => {
            &&& current < p@.len()
            &&& p@.len() <= usize::MAX
            &&& forall|i: int| 0 <= i < p@.len() ==> in_world(#[trigger] p@[i])
        },
        EnemyAiState::Combat { player_position } => in_world(player_position),
        _ => true,
    }
}

/// Alert on the route `route`, heading for its first waypoint.
pub open spec fn alert_on(s: EnemyAiState, route: Seq<Point>) -> bool {
    s matches EnemyAiState::Alert { path: Some(p), current } && p@ == route && current == 0
}

impl Enemy {
    pub open spec fn wf(&self) -> bool {
        state_wf(self.ai_state)
    }

    /// An idle enemy whose reaction delay has not started.
    pub fn new() -> (r: Enemy)
        ensures
            r.wf(),
            r.ai_state is Idle,
            r.shock_timer == fresh(SHOCK_DURATION),
    {
        Enemy { ai_state: EnemyAiState::Idle, shock_timer: Countdown::new(SHOCK_DURATION) }
    }

    pub fn is_idle(&self) -> (r: bool)
        ensures
            r == self.ai_state is Idle,
    {
        match self.ai_state {
            EnemyAiState::Idle => true,
            _ => false,
        }
    }

    pub fn is_alert(&self) -> (r: bool)
        ensures
            r == self.ai_state is Alert,
    {
        match self.ai_state {
            EnemyAiState::Alert { .. } => true,
            _ => false,
        }
    }

    pub fn is_in_combat(&self) -> (r: bool)
        ensures
            r == self.ai_state is Combat,
    {
        match self.ai_state {
            EnemyAiState::Combat { .. } => true,
            _ => false,
        }
    }

    /// The waypoint the enemy is walking to, when it is alert on a path.
    pub fn current_waypoint(&self) -> (r: Option<Point>)
        requires
            self.wf(),
        ensures
            r == match self.ai_state {
                EnemyAiState::Alert { path: Some(p), current } => Some(p@[current as int]),
                _ => None,
            },
    {
        match &self.ai_state {
            EnemyAiState::Alert { path: Some(p), current } => Some(p[*current]),
            _ => None,
        }
    }
}

/// The part of the view around the camera, in world units.
#[derive(Clone, Copy, Debug, PartialEq, Eq, Structural)]
pub struct ScreenView {
    pub camera: Point,
    pub width: i64,
    pub height: i64,
}

impl ScreenView {
    pub open spec fn wf(&self) -> bool {
        &&& in_world(self.camera)
        &&& 0 <= self.width <= WORLD_LIMIT
        &&& 0 <= self.height <= WORLD_LIMIT
    }
}

/// A point lies on screen when its offset from the camera is, on each axis,
/// less than half the view size minus half a tile.
pub open spec fn on_screen(point: Point, view: ScreenView) -> bool {
    &&& 2 * abs(point.x - view.camera.x) < view.width - TILE_SIZE
    &&& 2 * abs(point.y - view.camera.y) < view.height - TILE_SIZE
}

/// Whether `point` lies on screen.
pub fn is_on_screen(point: Point, view: &ScreenView) -> (r: bool)
    requires
        in_world(point),
        view.wf(),
    ensures
        r == on_screen(point, *view),
{
    let dx = point.x - view.camera.x;
    let dy = point.y - view.camera.y;
    let ax = if dx < 0 { -dx } else { dx };
    let ay = if dy < 0 { -dy } else { dy };
    2 * ax < view.width - TILE_SIZE && 2 * ay < view.height - TILE_SIZE
}

/// `facing` scaled to length `HEADING_SCALE` (rounded toward zero), or
/// straight up for the zero vector.
pub open spec fn unit_facing(f: Point) -> Point {
    let len = sqrt_floor(f.x * f.x + f.y * f.y);
    if len == 0 {
        Point { x: 0, y: HEADING_SCALE as i64 }
    } else {
        Point {
            x: scaled(f.x as int, HEADING_SCALE as int, len) as i64,
            y: scaled(f.y as int, HEADING_SCALE as int, len) as i64,
        }
    }
}

/// A heading of length `HEADING_SCALE` turned by `jitter` milliradians, to
/// first order (the result is scaled by `HEADING_SCALE`).
pub open spec fn turned(h: Point, jitter: int) -> Point {
    Point {
        x: (HEADING_SCALE * h.x - jitter * h.y) as i64,
        y: (HEADING_SCALE * h.y + jitter * h.x) as i64,
    }
}

/// The muzzle: one tile ahead of the unit along its facing.
pub open spec fn muzzle_of(pose: Pose) -> Point {
    let f = pose.facing;
    let len = sqrt_floor(f.x * f.x + f.y * f.y);
    if len == 0 {
        Point { x: pose.position.x, y: (pose.position.y + TILE_SIZE) as i64 }
    } else {
        Point {
            x: (pose.position.x + scaled(f.x as int, TILE_SIZE as int, len)) as i64,
            y: (pose.position.y + scaled(f.y as int, TILE_SIZE as int, len)) as i64,
        }
    }
}

/// What one discharge of a weapon produces.
pub struct ShotOutcome {
    /// Raised for every discharge, at the shooter's position.
    pub fired: ShootEvent,
    /// A point-blank hit, raised at once without a projectile.
    pub hit: Option<ShotEvent>,
    /// The projectile, spawned at the muzzle when it lies in the world.
    pub bullet: Option<Bullet>,
}

/// The outcome of `shooter` at `pose` firing at `target`, standing at
/// `target_position`, with a spread of `jitter` milliradians: within a tile
/// the target is hit at once; farther away a bullet leaves the muzzle.
pub open spec fn shot_outcome(
    shooter: EntityId,
    pose: Pose,
    target: EntityId,
    target_position: Point,
    jitter: int,
) -> ShotOutcome {
    let fired = ShootEvent(pose.position);
    if dist2(pose.position, target_position) < TILE_SIZE * TILE_SIZE {
        ShotOutcome { fired, hit: Some(ShotEvent(target)), bullet: None }
    } else {
        ShotOutcome { fired, hit: None, bullet: bullet_from(shooter, pose, jitter) }
    }
}

/// The bullet that `owner` at `pose` fires with a spread of `jitter`
/// milliradians: it leaves the muzzle, when that lies in the world.
pub open spec fn bullet_from(owner: EntityId, pose: Pose, jitter: int) -> Option<Bullet> {
    let m = muzzle_of(pose);
    if in_world(m) {
        Some(
            Bullet {
                position: m,
                heading: turned(unit_facing(pose.facing), jitter),
                speed: BULLET_SPEED,
                owner,
                alive: true,
            },
        )
    } else {
        None
    }
}

/// Length of a facing vector of the world, with the facts its users need.
fn facing_length(f: Point) -> (r: u64)
    requires
        abs(f.x as int) <= 2 * WORLD_LIMIT,
        abs(f.y as int) <= 2 * WORLD_LIMIT,
    ensures
        r == sqrt_floor(f.x * f.x + f.y * f.y),
        r <= 4 * WORLD_LIMIT,
        abs(f.x as int) <= r || r == 0,
        abs(f.y as int) <= r || r == 0,
        r == 0 ==> f.x == 0 && f.y == 0,
{
    let fx = f.x;
    let fy = f.y;
    assert(0 <= fx * fx <= 1_125_899_906_842_624) by (nonlinear_arith)
        requires
            -33_554_432 <= fx <= 33_554_432,
    ;
    assert(0 <= fy * fy <= 1_125_899_906_842_624) by (nonlinear_arith)
        requires
            -33_554_432 <= fy <= 33_554_432,
    ;
    let n = (fx * fx + fy * fy) as u64;
    let len = isqrt(n);
    assert(len <= 67_108_864) by (nonlinear_arith)
        requires
            len * len <= 2_251_799_813_685_248,
    ;
    assert(abs(fx as int) <= len && abs(fy as int) <= len) by (nonlinear_arith)
        requires
            fx * fx + fy * fy < (len + 1) * (len + 1),
            len >= 0,
    ;
    assert(len == 0 ==> fx == 0 && fy == 0) by (nonlinear_arith)
        requires
            fx * fx + fy * fy < (len + 1) * (len + 1),
            len >= 0,
    ;
    len
}

/// Fires from `pose` at `target`, standing at `target_position`, with a
/// spread of `jitter` milliradians.
pub fn shoot(
    shooter: EntityId,
    pose: &Pose,
    target: EntityId,
    target_position: Point,
    jitter: i64,
) -> (r: ShotOutcome)
    requires
        pose.wf(),
        in_world(target_position),
        -1000 <= jitter <= 1000,
    ensures
        r == shot_outcome(shooter, *pose, target, target_position, jitter as int),
{
    let fired = ShootEvent(pose.position);
    if distance_squared(pose.position, target_position) < (TILE_SIZE * TILE_SIZE) as u64 {
        return ShotOutcome { fired, hit: Some(ShotEvent(target)), bullet: None };
    }
    let bullet = spawn_bullet(shooter, pose, jitter);
    ShotOutcome { fired, hit: None, bullet }
}

/// Spawns the bullet that `owner` at `pose` fires with a spread of `jitter`
/// milliradians.
pub fn spawn_bullet(owner: EntityId, pose: &Pose, jitter: i64) -> (r: Option<Bullet>)
    requires
        pose.wf(),
        -1000 <= jitter <= 1000,
    ensures
        r == bullet_from(owner, *pose, jitter as int),
        r matches Some(b) ==> b.wf(),
{
    let len = facing_length(pose.facing);
    let (m, h) = if len == 0 {
        (Point { x: pose.position.x, y: pose.position.y + TILE_SIZE }, Point { x: 0, y: 1000 })
    } else {
        (
            Point {
                x: pose.position.x + share(pose.facing.x, TILE_SIZE as u64, len),
                y: pose.position.y + share(pose.facing.y, TILE_SIZE as u64, len),
            },
            Point {
                x: share(pose.facing.x, HEADING_SCALE, len),
                y: share(pose.facing.y, HEADING_SCALE, len),
            },
        )
    };
    assert(h == unit_facing(pose.facing));
    assert(m == muzzle_of(*pose));
    let hx = h.x;
    let hy = h.y;
    assert(abs(1000 * hx - jitter * hy) <= MAX_HEADING && abs(1000 * hy + jitter * hx)
        <= MAX_HEADING) by (nonlinear_arith)
        requires
            -1000 <= hx <= 1000,
            -1000 <= hy <= 1000,
            -1000 <= jitter <= 1000,
    ;
    let heading = Point { x: 1000 * hx - jitter * hy, y: 1000 * hy + jitter * hx };
    let bullet = if m.is_in_world() {
        Some(Bullet { position: m, heading, speed: BULLET_SPEED, owner, alive: true })
    } else {
        None
    };
    bullet
}

/// What an enemy perceives of the player this tick.
#[derive(Clone, Copy, Debug, PartialEq, Eq, Structural)]
pub struct Sighting {
    /// The first solid entity met by a cast from the enemy toward the player,
    /// up to `ENEMY_SIGHT`, sensors and the enemy itself excluded.
    pub first_hit: Option<EntityId>,
    pub player: EntityId,
    pub player_position: Point,
}

/// The sight cast met the player first.
pub open spec fn sees_player(s: Sighting) -> bool {
    s.first_hit == Some(s.player)
}

/// Where the enemy faces after turning toward `target` (it keeps its facing
/// when it stands on the target).
pub open spec fn facing_toward(pose: Pose, target: Point) -> Point {
    if target == pose.position {
        pose.facing
    } else {
        Point { x: (target.x - pose.position.x) as i64, y: (target.y - pose.position.y) as i64 }
    }
}

/// One tick of perception and decision for the enemy `me`; `delta` is the
/// scaled frame time in microseconds. Returns the shot it fires, if any.
///
/// Seeing the player puts the enemy in combat facing the player. The first
/// sight (the enemy was not in combat) starts the reaction delay over without
/// running it. Afterwards, while the enemy is on screen, the delay runs and,
/// once both it and the weapon cooldown are over, the enemy fires and the
/// cooldown restarts. Not seeing the player, an enemy in combat turns alert
/// on a route to where it last saw the player and its reaction delay starts
/// over; when no route exists, or the enemy was not in combat, nothing
/// changes but the cooldown.
pub fn update_enemy_ai(
    me: EntityId,
    enemy: &mut Enemy,
    pose: &mut Pose,
    shooting: &mut Shooting,
    sight: &Sighting,
    view: &ScreenView,
    nav: &EnemyNavMesh,
    delta: u64,
) -> (r: Option<ShotOutcome>)
    requires
        old(enemy).wf(),
        old(pose).wf(),
        sees_player(*sight) ==> in_world(sight.player_position),
        view.wf(),
        nav.spec_baked() is Some,
    ensures
        final(enemy).wf(),
        final(pose).wf(),
        final(pose).position == old(pose).position,
        sees_player(*sight) ==> {
            let fire = on_screen(old(pose).position, *view) && final(enemy).shock_timer.finished
                && ticked(old(shooting).cooldown, delta).finished;
            &&& final(enemy).ai_state == EnemyAiState::Combat {
                player_position: sight.player_position,
            }
            &&& final(pose).facing == facing_toward(*old(pose), sight.player_position)
            &&& final(enemy).shock_timer == if !(old(enemy).ai_state is Combat) {
                restarted(old(enemy).shock_timer)
            } else if on_screen(old(pose).position, *view) {
                ticked(old(enemy).shock_timer, delta)
            } else {
                old(enemy).shock_timer
            }
            &&& (r is Some <==> fire)
            &&& final(shooting).cooldown == if fire {
                restarted(ticked(old(shooting).cooldown, delta))
            } else {
                ticked(old(shooting).cooldown, delta)
            }
            &&& r matches Some(o) ==> exists|j: int|
                0 <= j <= ENEMY_SPREAD && o == shot_outcome(
                    me,
                    *final(pose),
                    sight.player,
                    sight.player_position,
                    j,
                )
        },
        !sees_player(*sight) ==> {
            &&& r is None
            &&& *final(pose) == *old(pose)
            &&& final(shooting).cooldown == ticked(old(shooting).cooldown, delta)
            &&& match old(enemy).ai_state {
                EnemyAiState::Combat { player_position: last } => match nav.route(
                    old(pose).position,
                    last,
                ) {
                    Some(route) => alert_on(final(enemy).ai_state, route)
                        && final(enemy).shock_timer == restarted(old(enemy).shock_timer),
                    None => final(enemy).ai_state == old(enemy).ai_state
                        && final(enemy).shock_timer == old(enemy).shock_timer,
                },
                _ => final(enemy).ai_state == old(enemy).ai_state
                    && final(enemy).shock_timer == old(enemy).shock_timer,
            }
        },
{
    shooting.cooldown.tick(delta);
    let position = pose.position;
    let sees = match sight.first_hit {
        Some(e) => e == sight.player,
        None => false,
    };
    if sees {
        let was_in_combat = match enemy.ai_state {
            EnemyAiState::Combat { .. } => true,
            _ => false,
        };
        enemy.ai_state = EnemyAiState::Combat { player_position: sight.player_position };
        if sight.player_position != position {
            pose.facing = Point {
                x: sight.player_position.x - position.x,
                y: sight.player_position.y - position.y,
            };
        }
        if !was_in_combat {
            enemy.shock_timer.reset();
            return None;
        }
        if is_on_screen(position, view) {
            enemy.shock_timer.tick(delta);
            if enemy.shock_timer.finished() && shooting.cooldown.finished() {
                let jitter = random_below(ENEMY_SPREAD + 1) as i64;
                let outcome = shoot(me, pose, sight.player, sight.player_position, jitter);
                shooting.cooldown.reset();
                return Some(outcome);
            }
        }
        return None;
    }
    let last = match &enemy.ai_state {
        EnemyAiState::Combat { player_position } => Some(*player_position),
        _ => None,
    };
    match last {
        Some(last) => {
            match nav.find_path(position, last) {
                Some(p) => {
                    enemy.ai_state = EnemyAiState::Alert { path: Some(p), current: 0 };
                    enemy.shock_timer.reset();
                },
                None => {},
            }
        },
        None => {},
    }
    None
}

/// World units walked at `speed` tiles per second in `delta` microseconds,
/// capped at a length that crosses the whole world.
pub open spec fn walk_distance(speed: u64, delta: u64) -> int {
    let d = (speed * TILE_SIZE * delta) / 1_000_000int;
    if d > 4 * WORLD_LIMIT { 4 * WORLD_LIMIT } else { d }
}

/// `pos` is within the arrival tolerance of `target`.
pub open spec fn arrived(pos: Point, target: Point) -> bool {
    dist2(pos, target) <= ARRIVAL_TOLERANCE * ARRIVAL_TOLERANCE
}

/// One tick of path following: an alert enemy within tolerance of its
/// waypoint moves on to the next one, or turns idle after the last one;
/// otherwise it walks toward the waypoint, facing it.
pub open spec fn follow_step(s: EnemyAiState, pose: Pose, speed: u64, delta: u64) -> (EnemyAiState, Pose) {
    match s {
        EnemyAiState::Alert { path: Some(p), current } => {
            let target = p@[current as int];
            if arrived(pose.position, target) {
                if current + 1 == p@.len() {
                    (EnemyAiState::Idle, pose)
                } else {
                    (EnemyAiState::Alert { path: Some(p), current: (current + 1) as usize }, pose)
                }
            } else {
                (
                    s,
                    Pose {
                        position: step_end(
                            pose.position,
                            target,
                            walk_distance(speed, delta),
                            sqrt_floor(dist2(pose.position, target)),
                        ),
                        facing: Point {
                            x: (target.x - pose.position.x) as i64,
                            y: (target.y - pose.position.y) as i64,
                        },
                    },
                )
            }
        },
        _ => (s, pose),
    }
}

pub(crate) fn walk_step(speed: u64, delta: u64) -> (r: u64)
    requires
        speed <= MAX_WALK_SPEED,
    ensures
        r == walk_distance(speed, delta),
{
    let a = speed as u128 * 50;
    let b = delta as u128;
    assert(a * b <= 50_000_000 * 18_446_744_073_709_551_615) by (nonlinear_arith)
        requires
            a <= 50_000_000,
            b <= 18_446_744_073_709_551_615,
    ;
    let t = a * b / 1_000_000;
    if t > 67_108_864 {
        67_108_864
    } else {
        t as u64
    }
}

/// Moves an alert enemy along its path for one tick of `delta` scaled
/// microseconds; other states are left alone.
pub fn update_enemy_position(enemy: &mut Enemy, pose: &mut Pose, movement: &Movement, delta: u64)
    requires
        old(enemy).wf(),
        old(pose).wf(),
        movement.speed <= MAX_WALK_SPEED,
    ensures
        (final(enemy).ai_state, *final(pose)) == follow_step(
            old(enemy).ai_state,
            *old(pose),
            movement.speed,
            delta,
        ),
        final(enemy).shock_timer == old(enemy).shock_timer,
        final(enemy).wf(),
        final(pose).wf(),
{
    let mut outcome: u8 = 0;
    match &enemy.ai_state {
        EnemyAiState::Alert { path: Some(path), current } => {
            let target = path[*current];
            if distance_squared(pose.position, target) <= (ARRIVAL_TOLERANCE * ARRIVAL_TOLERANCE) as u64 {
                if *current == path.len() - 1 {
                    outcome = 2;
                } else {
                    outcome = 1;
                }
            } else {
                let step = walk_step(movement.speed, delta);
                let next = step_toward(pose.position, target, step);
                pose.facing = Point { x: target.x - pose.position.x, y: target.y - pose.position.y };
                pose.position = next;
            }
        },
        _ => {},
    }
    if outcome == 2 {
        enemy.ai_state = EnemyAiState::Idle;
    } else if outcome == 1 {
        match &mut enemy.ai_state {
            EnemyAiState::Alert { current, .. } => {
                *current = *current + 1;
            },
            _ => {},
        }
    }
}

/// Manhattan length of the path from waypoint `from` to its end.
pub open spec fn path_rest(p: Seq<Point>, from: int) -> nat
    decreases p.len() - from,
{
    if 0 <= from && from + 1 < p.len() {
        manhattan(p[from], p[from + 1]) + path_rest(p, from + 1)
    } else {
        0
    }
}

/// Manhattan length of the way left to an alert enemy at `pos`: to its
/// current waypoint, then along the rest of the path. Zero in other states.
pub open spec fn remaining_distance(s: EnemyAiState, pos: Point) -> nat {
    match s {
        EnemyAiState::Alert { path: Some(p), current } => if current < p@.len() {
            manhattan(pos, p@[current as int]) + path_rest(p@, current as int)
        } else {
            0
        },
        _ => 0,
    }
}

/// Path following never lengthens the way left: the Manhattan length from
/// the enemy through its remaining waypoints does not grow from one tick to
/// the next.
pub proof fn lemma_path_progress(s: EnemyAiState, pose: Pose, speed: u64, delta: u64)
    requires
        state_wf(s),
        pose.wf(),
    ensures
        remaining_distance(follow_step(s, pose, speed, delta).0, follow_step(s, pose, speed, delta).1.position)
            <= remaining_distance(s, pose.position),
{
    match s {
        EnemyAiState::Alert { path: Some(p), current } => {
            let c = current as int;
            let target = p@[c];
            if arrived(pose.position, target) {
                if current + 1 < p@.len() {
                    assert(path_rest(p@, c) == manhattan(p@[c], p@[c + 1]) + path_rest(p@, c + 1));
                    let t = follow_step(s, pose, speed, delta);
                    assert(t.1 == pose);
                    assert(remaining_distance(t.0, pose.position) == manhattan(pose.position, p@[c + 1])
                        + path_rest(p@, c + 1));
                }
            } else {
                let w = walk_distance(speed, delta);
                assert(w >= 0) by (nonlinear_arith)
                    requires
                        w == walk_distance(speed, delta),
                ;
                lemma_step_end_between(pose.position, target, w);
            }
        },
        _ => {},
    }
}

/// `k` ticks of path following with the same speed and frame time.
pub open spec fn follow_run(s: EnemyAiState, pose: Pose, speed: u64, delta: u64, k: nat) -> (EnemyAiState, Pose)
    decreases k,
{
    if k == 0 {
        (s, pose)
    } else {
        let (s1, p1) = follow_step(s, pose, speed, delta);
        follow_run(s1, p1, speed, delta, (k - 1) as nat)
    }
}

/// Following a path never loops and never stalls at a waypoint: each tick
/// keeps the path, and either keeps the current waypoint while walking
/// toward it, or, once within tolerance, moves on to the next one, or turns
/// idle at the last one.
pub proof fn lemma_follow_step_advances(s: EnemyAiState, pose: Pose, speed: u64, delta: u64)
    requires
        state_wf(s),
        s matches EnemyAiState::Alert { path: Some(_), .. },
    ensures
        ({
            let (t, q) = follow_step(s, pose, speed, delta);
            match s {
                EnemyAiState::Alert { path: Some(p), current } => {
                    &&& arrived(pose.position, p@[current as int]) && current + 1 == p@.len() ==> t is Idle
                    &&& arrived(pose.position, p@[current as int]) && current + 1 < p@.len()
                        ==> t == EnemyAiState::Alert { path: Some(p), current: (current + 1) as usize }
                    &&& !arrived(pose.position, p@[current as int]) ==> t == s
                },
                _ => true,
            }
        }),
{
}

/// What path following uses up: the Manhattan way left plus the number of
/// waypoints left.
pub open spec fn follow_measure(s: EnemyAiState, pos: Point) -> nat {
    remaining_distance(s, pos) + waypoints_left(s)
}

/// With steps of at least two world units, one tick of path following keeps
/// the state and the pose well formed and either turns the enemy idle or
/// uses up at least one unit of `follow_measure`.
proof fn lemma_follow_step_decreases(s: EnemyAiState, pose: Pose, speed: u64, delta: u64)
    requires
        state_wf(s),
        pose.wf(),
        walk_distance(speed, delta) >= 2,
        s matches EnemyAiState::Alert { path: Some(_), .. },
    ensures
        ({
            let (t, q) = follow_step(s, pose, speed, delta);
            &&& state_wf(t)
            &&& q.wf()
            &&& t is Idle || (t matches EnemyAiState::Alert { path: Some(_), .. } && follow_measure(
                t,
                q.position,
            ) < follow_measure(s, pose.position))
        }),
{
    match s {
        EnemyAiState::Alert { path: Some(p), current } => {
            let c = current as int;
            let target = p@[c];
            let (t, q) = follow_step(s, pose, speed, delta);
            if arrived(pose.position, target) {
                if current + 1 < p@.len() {
                    assert(path_rest(p@, c) == manhattan(p@[c], p@[c + 1]) + path_rest(p@, c + 1));
                    assert(q == pose);
                    assert(remaining_distance(t, pose.position) == manhattan(pose.position, p@[c + 1])
                        + path_rest(p@, c + 1));
                    assert(waypoints_left(t) + 1 == waypoints_left(s));
                }
            } else {
                let w = walk_distance(speed, delta);
                lemma_step_end_between(pose.position, target, w);
                lemma_step_end_progress(pose.position, target, w);
                assert(t == s);
            }
        },
        _ => {},
    }
}

/// Arrival termination: an alert enemy whose every step covers at least two
/// world units passes its waypoints in order and is idle after at most
/// `follow_measure` ticks, that is the number of waypoints left plus the
/// Manhattan length of the way left (a one-unit step can round to nothing
/// along a diagonal).
pub proof fn lemma_arrival_termination(s: EnemyAiState, pose: Pose, speed: u64, delta: u64)
    requires
        state_wf(s),
        pose.wf(),
        walk_distance(speed, delta) >= 2,
        s matches EnemyAiState::Alert { path: Some(_), .. },
    ensures
        follow_run(s, pose, speed, delta, follow_measure(s, pose.position)).0 is Idle,
    decreases follow_measure(s, pose.position),
{
    let m = follow_measure(s, pose.position);
    let (t, q) = follow_step(s, pose, speed, delta);
    lemma_follow_step_decreases(s, pose, speed, delta);
    assert(m >= 1);
    assert(follow_run(s, pose, speed, delta, m) == follow_run(t, q, speed, delta, (m - 1) as nat));
    if t is Idle {
        lemma_idle_stays(q, speed, delta, (m - 1) as nat);
    } else {
        let m2 = follow_measure(t, q.position);
        lemma_arrival_termination(t, q, speed, delta);
        lemma_idle_stays_after(t, q, speed, delta, m2, (m - 1 - m2) as nat);
        assert(m2 + (m - 1 - m2) as nat == (m - 1) as nat);
    }
}

/// Waypoints left to an alert enemy, the current one included.
pub open spec fn waypoints_left(s: EnemyAiState) -> nat {
    match s {
        EnemyAiState::Alert { path: Some(p), current } => (p@.len() - current) as nat,
        _ => 0,
    }
}

proof fn lemma_idle_stays(pose: Pose, speed: u64, delta: u64, k: nat)
    ensures
        follow_run(EnemyAiState::Idle, pose, speed, delta, k).0 is Idle,
    decreases k,
{
    if k > 0 {
        lemma_idle_stays(pose, speed, delta, (k - 1) as nat);
    }
}

proof fn lemma_idle_stays_after(s: EnemyAiState, pose: Pose, speed: u64, delta: u64, m: nat, extra: nat)
    requires
        follow_run(s, pose, speed, delta, m).0 is Idle,
    ensures
        follow_run(s, pose, speed, delta, m + extra).0 is Idle,
    decreases m,
{
    if m == 0 {
        lemma_idle_stays(pose, speed, delta, extra);
    } else {
        let (s1, p1) = follow_step(s, pose, speed, delta);
        lemma_idle_stays_after(s1, p1, speed, delta, (m - 1) as nat, extra);
        assert((m + extra - 1) as nat == (m - 1) as nat + extra);
    }
}

/// The reaction-delay timer over the ticks that follow the first sight of
/// the player while the player stays in sight, each tick given as (the enemy
/// is on screen, the scaled delta), as `update_enemy_ai` changes it: it runs
/// on screen and holds off screen.
pub open spec fn shock_in_sight(c: Countdown, ticks: Seq<(bool, u64)>) -> Countdown
    decreases ticks.len(),
{
    if ticks.len() == 0 {
        c
    } else {
        let next = if ticks[0].0 { ticked(c, ticks[0].1) } else { c };
        shock_in_sight(next, ticks.drop_first())
    }
}

/// The time of the ticks spent on screen.
pub open spec fn time_on_screen(ticks: Seq<(bool, u64)>) -> int
    decreases ticks.len(),
{
    if ticks.len() == 0 {
        0
    } else {
        (if ticks[0].0 { ticks[0].1 as int } else { 0 }) + time_on_screen(ticks.drop_first())
    }
}

/// The reaction delay: `update_enemy_ai` starts the timer over, without
/// running it, on the tick of first sight (the enemy was not in combat). Over
/// the ticks that follow while the player stays in sight, the delay is over,
/// and so the enemy may fire, only once the time spent on screen after first
/// sight adds up to the whole delay.
pub proof fn lemma_reaction_delay(c: Countdown, ticks: Seq<(bool, u64)>)
    ensures
        shock_in_sight(restarted(c), ticks).finished ==> time_on_screen(ticks) >= c.duration,
{
    lemma_delay_not_early(restarted(c), ticks);
}

proof fn lemma_delay_not_early(c: Countdown, ticks: Seq<(bool, u64)>)
    requires
        !c.finished,
        c.elapsed <= c.duration,
    ensures
        shock_in_sight(c, ticks).finished ==> c.elapsed + time_on_screen(ticks) >= c.duration,
    decreases ticks.len(),
{
    if ticks.len() > 0 {
        let next = if ticks[0].0 { ticked(c, ticks[0].1) } else { c };
        lemma_time_on_screen_nonneg(ticks.drop_first());
        if !next.finished {
            lemma_delay_not_early(next, ticks.drop_first());
        }
    }
}

proof fn lemma_time_on_screen_nonneg(ticks: Seq<(bool, u64)>)
    ensures
        time_on_screen(ticks) >= 0,
    decreases ticks.len(),
{
    if ticks.len() > 0 {
        lemma_time_on_screen_nonneg(ticks.drop_first());
    }
}

/// A gunshot at `origin` is within earshot of an enemy at `pos`
/// (the hearing radius is inclusive).
pub open spec fn within_hearing(pos: Point, origin: Point) -> bool {
    in_world(origin) && dist2(pos, origin) <= ENEMY_HEARING * ENEMY_HEARING
}

/// How a gunshot at `origin` changes the state `before` of an enemy at `pos`
/// into `after`: an idle or alert enemy within earshot turns alert on a
/// route to the shot when one exists; any other enemy is unchanged.
pub open spec fn heard(before: EnemyAiState, pos: Point, origin: Point, nav: EnemyNavMesh, after: EnemyAiState) -> bool {
    if (before is Idle || before is Alert) && within_hearing(pos, origin) {
        match nav.route(pos, origin) {
            Some(route) => alert_on(after, route),
            None => after == before,
        }
    } else {
        after == before
    }
}

/// Reacts to a gunshot heard at `shot`.
pub fn hear_shot(enemy: &mut Enemy, pose: &Pose, shot: ShootEvent, nav: &EnemyNavMesh)
    requires
        old(enemy).wf(),
        pose.wf(),
        nav.spec_baked() is Some,
    ensures
        heard(old(enemy).ai_state, pose.position, shot.0, *nav, final(enemy).ai_state),
        final(enemy).shock_timer == old(enemy).shock_timer,
        final(enemy).wf(),
{
    let listening = match enemy.ai_state {
        EnemyAiState::Combat { .. } => false,
        _ => true,
    };
    if !listening || !shot.0.is_in_world() {
        return;
    }
    if distance_squared(pose.position, shot.0) > (ENEMY_HEARING * ENEMY_HEARING) as u64 {
        return;
    }
    match nav.find_path(pose.position, shot.0) {
        Some(p) => {
            enemy.ai_state = EnemyAiState::Alert { path: Some(p), current: 0 };
        },
        None => {},
    }
}

/// One enemy with the components that its behaviour reads and writes.
pub struct EnemyUnit {
    pub id: EntityId,
    pub enemy: Enemy,
    pub pose: Pose,
    pub movement: Movement,
    pub shooting: Shooting,
}

impl EnemyUnit {
    pub open spec fn wf(&self) -> bool {
        &&& self.enemy.wf()
        &&& self.pose.wf()
        &&& self.movement.speed <= MAX_WALK_SPEED
    }

    /// An idle enemy at `position`, facing up, at enemy speed, with its
    /// weapon cooling down.
    pub fn new(id: EntityId, position: Point) -> (r: EnemyUnit)
        requires
            in_world(position),
        ensures
            r.wf(),
            r.id == id,
            r.enemy.ai_state is Idle,
            r.enemy.shock_timer == fresh(SHOCK_DURATION),
            r.pose == Pose::new_spec(position),
            r.movement.speed == ENEMY_SPEED,
            r.shooting.cooldown == fresh(ENEMY_COOLDOWN),
    {
        EnemyUnit {
            id,
            enemy: Enemy::new(),
            pose: Pose::new(position),
            movement: Movement { speed: ENEMY_SPEED },
            shooting: Shooting { cooldown: Countdown::new(ENEMY_COOLDOWN) },
        }
    }
}

/// Every enemy of `after` is the one of `before` at the same place, with its
/// behaviour state changed by the gunshot at `origin` as `heard` says.
pub open spec fn all_heard(before: Seq<EnemyUnit>, after: Seq<EnemyUnit>, origin: Point, nav: EnemyNavMesh) -> bool {
    &&& after.len() == before.len()
    &&& forall|i: int|
        0 <= i < before.len() ==> {
            &&& (#[trigger] after[i]).id == before[i].id
            &&& after[i].pose == before[i].pose
            &&& after[i].movement == before[i].movement
            &&& after[i].shooting == before[i].shooting
            &&& after[i].enemy.shock_timer == before[i].enemy.shock_timer
            &&& after[i].wf()
            &&& heard(before[i].enemy.ai_state, before[i].pose.position, origin, nav, after[i].enemy.ai_state)
        }
}

/// Lets every enemy hear the gunshot `shot`.
pub fn alert_on_shot_sound(units: &mut Vec<EnemyUnit>, shot: ShootEvent, nav: &EnemyNavMesh)
    requires
        forall|i: int| 0 <= i < old(units)@.len() ==> (#[trigger] old(units)@[i]).wf(),
        nav.spec_baked() is Some,
    ensures
        all_heard(old(units)@, final(units)@, shot.0, *nav),
{
    let ghost before = units@;
    let mut i: usize = 0;
    while i < units.len()
        invariant
            nav.spec_baked() is Some,
            units@.len() == before.len(),
            i <= units@.len(),
            forall|j: int|
                0 <= j < i ==> {
                    &&& (#[trigger] units@[j]).id == before[j].id
                    &&& units@[j].pose == before[j].pose
                    &&& units@[j].movement == before[j].movement
                    &&& units@[j].shooting == before[j].shooting
                    &&& units@[j].enemy.shock_timer == before[j].enemy.shock_timer
                    &&& units@[j].wf()
                    &&& heard(before[j].enemy.ai_state, before[j].pose.position, shot.0, *nav, units@[j].enemy.ai_state)
                },
            forall|j: int| i <= j < units@.len() ==> #[trigger] units@[j] == before[j],
            forall|j: int| 0 <= j < before.len() ==> (#[trigger] before[j]).wf(),
        decreases units@.len() - i,
    {
        let ghost prev = units@;
        let mut u = units.remove(i);
        hear_shot(&mut u.enemy, &u.pose, shot, nav);
        units.insert(i, u);
        proof {
            assert forall|j: int| 0 <= j < units@.len() && j != i implies units@[j] == prev[j] by {}
        }
        i += 1;
    }
    proof {
        assert(all_heard(before, units@, shot.0, *nav));
    }
}

/// The hearing radius: a gunshot at `origin` alerts every idle enemy within
/// the radius (inclusive), on the route to the shot whenever one exists, and
/// changes nothing for any enemy beyond it.
pub proof fn lemma_hearing_radius(before: Seq<EnemyUnit>, after: Seq<EnemyUnit>, origin: Point, nav: EnemyNavMesh)
    requires
        all_heard(before, after, origin, nav),
    ensures
        forall|i: int|
            0 <= i < before.len() && (#[trigger] before[i]).enemy.ai_state is Idle && in_world(origin)
                && dist2(before[i].pose.position, origin) <= ENEMY_HEARING * ENEMY_HEARING
                && nav.route(before[i].pose.position, origin) is Some ==> alert_on(
                after[i].enemy.ai_state,
                nav.route(before[i].pose.position, origin)->0,
            ),
        forall|i: int|
            0 <= i < before.len() && dist2((#[trigger] before[i]).pose.position, origin)
                > ENEMY_HEARING * ENEMY_HEARING ==> after[i].enemy.ai_state == before[i].enemy.ai_state,
{
    assert forall|i: int|
        0 <= i < before.len() && dist2((#[trigger] before[i]).pose.position, origin) > ENEMY_HEARING
            * ENEMY_HEARING implies after[i].enemy.ai_state == before[i].enemy.ai_state by {
        assert(heard(before[i].enemy.ai_state, before[i].pose.position, origin, nav, after[i].enemy.ai_state));
    }
    assert forall|i: int|
        0 <= i < before.len() && (#[trigger] before[i]).enemy.ai_state is Idle && in_world(origin)
            && dist2(before[i].pose.position, origin) <= ENEMY_HEARING * ENEMY_HEARING
            && nav.route(before[i].pose.position, origin) is Some implies alert_on(
        after[i].enemy.ai_state,
        nav.route(before[i].pose.position, origin)->0,
    ) by {
        assert(heard(before[i].enemy.ai_state, before[i].pose.position, origin, nav, after[i].enemy.ai_state));
    }
}

/// Whether some enemy of `units` has the identifier `id`.
pub open spec fn has_unit(units: Seq<EnemyUnit>, id: EntityId) -> bool {
    exists|i: int| 0 <= i < units.len() && units[i].id == id
}

/// The position of the first enemy of `units` with the identifier `id`.
pub open spec fn unit_index(units: Seq<EnemyUnit>, id: EntityId) -> int {
    choose|i: int|
        0 <= i < units.len() && units[i].id == id && forall|j: int| 0 <= j < i ==> units[j].id != id
}

/// The enemies left after the hits `hits`, in order, each removing the first
/// enemy it names, with the identifiers and positions of the fallen.
pub open spec fn after_hits(units: Seq<EnemyUnit>, hits: Seq<ShotEvent>) -> (Seq<EnemyUnit>, Seq<(EntityId, Point)>)
    decreases hits.len(),
{
    if hits.len() == 0 {
        (units, Seq::empty())
    } else {
        let (left, fallen) = after_hits(units, hits.drop_last());
        let id = hits.last().0;
        if has_unit(left, id) {
            let k = unit_index(left, id);
            (left.remove(k), fallen.push((id, left[k].pose.position)))
        } else {
            (left, fallen)
        }
    }
}

proof fn lemma_unit_index(units: Seq<EnemyUnit>, id: EntityId, i: int)
    requires
        0 <= i < units.len(),
        units[i].id == id,
        forall|j: int| 0 <= j < i ==> units[j].id != id,
    ensures
        has_unit(units, id),
        unit_index(units, id) == i,
{
    let k = unit_index(units, id);
    if k < i {
        assert(units[k].id != id);
    }
    if i < k {
        assert(units[i].id != id);
    }
}

/// Removes every enemy hit by `hits`, counting the kills; returns the
/// identifier and position of each fallen enemy, for its body.
pub fn enemies_get_shot(units: &mut Vec<EnemyUnit>, hits: &Vec<ShotEvent>, stats: &mut Stats) -> (r: Vec<(EntityId, Point)>)
    ensures
        (final(units)@, r@) == after_hits(old(units)@, hits@),
        *final(stats) == (Stats {
            enemies_killed: bumped(old(stats).enemies_killed, r@.len() as int),
            ..*old(stats)
        }),
{
    let ghost before = units@;
    let mut fallen: Vec<(EntityId, Point)> = Vec::new();
    let mut h: usize = 0;
    while h < hits.len()
        invariant
            h <= hits@.len(),
            (units@, fallen@) == after_hits(before, hits@.take(h as int)),
        decreases hits@.len() - h,
    {
        let id = hits[h].0;
        let mut i: usize = 0;
        let mut found = false;
        while i < units.len()
            invariant_except_break
                !found,
            invariant
                i <= units@.len(),
                forall|j: int| 0 <= j < i ==> (#[trigger] units@[j]).id != id,
            ensures
                found ==> i < units@.len() && units@[i as int].id == id,
                !found ==> i == units@.len(),
            decreases units@.len() - i,
        {
            if units[i].id == id {
                found = true;
                break;
            }
            i += 1;
        }
        proof {
            let t = hits@.take(h + 1);
            assert(t.drop_last() == hits@.take(h as int));
            assert(t.last() == hits@[h as int]);
            if found {
                lemma_unit_index(units@, id, i as int);
            } else {
                assert(!has_unit(units@, id));
            }
        }
        if found {
            let u = units.remove(i);
            fallen.push((id, u.pose.position));
        }
        h += 1;
    }
    proof {
        assert(hits@.take(hits@.len() as int) == hits@);
    }
    stats.enemies_killed = bump(stats.enemies_killed, fallen.len());
    fallen
}

} // verus!
