use crackhead_adventures::countdown::Countdown;
use crackhead_adventures::enemy::{
    alert_on_shot_sound, enemies_get_shot, hear_shot, is_on_screen, update_enemy_ai, update_enemy_position,
    EnemyAiState, EnemyUnit, ScreenView, Sighting, ENEMY_COOLDOWN, SHOCK_DURATION,
};
use crackhead_adventures::events::{ShootEvent, ShotEvent};
use crackhead_adventures::geometry::Point;
use crackhead_adventures::nav_mesh::EnemyNavMesh;
use crackhead_adventures::stats::Stats;

fn p(x: i64, y: i64) -> Point {
    Point::new(x, y)
}

fn row_of_tiles(n: i64) -> EnemyNavMesh {
    let mut mesh = EnemyNavMesh::new();
    let floor: Vec<(i64, i64)> = (0..n).map(|x| (x, 0)).collect();
    mesh.register_level(&floor, &Vec::new());
    mesh.bake();
    mesh
}

fn view() -> ScreenView {
    ScreenView { camera: p(0, 0), width: 1280, height: 720 }
}

fn ready_cooldown() -> Countdown {
    Countdown { duration: ENEMY_COOLDOWN, elapsed: ENEMY_COOLDOWN, finished: true, just_finished: false }
}

fn manhattan(a: Point, b: Point) -> i64 {
    (a.x - b.x).abs() + (a.y - b.y).abs()
}

fn remaining(unit: &EnemyUnit) -> i64 {
    match &unit.enemy.ai_state {
        EnemyAiState::Alert { path: Some(path), current } => {
            let mut total = manhattan(unit.pose.position, path[*current]);
            for i in *current..path.len() - 1 {
                total += manhattan(path[i], path[i + 1]);
            }
            total
        }
        _ => 0,
    }
}

#[test]
fn on_screen_bounds_are_strict() {
    assert!(is_on_screen(p(614, 0), &view()));
    assert!(!is_on_screen(p(615, 0), &view()));
    assert!(is_on_screen(p(0, -334), &view()));
    assert!(!is_on_screen(p(0, -335), &view()));
}

#[test]
fn reaction_delay_holds_first_shot() {
    let mesh = row_of_tiles(4);
    let mut unit = EnemyUnit::new(1, p(0, 0));
    unit.shooting.cooldown = ready_cooldown();
    let sight = Sighting { first_hit: Some(7), player: 7, player_position: p(100, 0) };
    let delta = 100_000;
    let mut since_first_sight = 0;
    let mut first_shot = None;
    for tick in 0..10 {
        let shot = update_enemy_ai(
            unit.id, &mut unit.enemy, &mut unit.pose, &mut unit.shooting, &sight, &view(), &mesh, delta,
        );
        if tick > 0 {
            since_first_sight += delta;
        }
        assert!(unit.enemy.is_in_combat());
        if shot.is_some() {
            first_shot = Some((tick, since_first_sight, shot.unwrap()));
            break;
        }
    }
    let (tick, since_first_sight, shot) = first_shot.expect("the enemy fires once the delay is over");
    assert_eq!(tick, 5);
    assert_eq!(since_first_sight, SHOCK_DURATION);
    assert_eq!(shot.fired, ShootEvent(p(0, 0)));
    assert_eq!(shot.bullet.unwrap().owner, 1);
    assert!(!unit.shooting.cooldown.finished());
}

#[test]
fn long_first_tick_does_not_count_toward_delay() {
    let mesh = row_of_tiles(4);
    let mut unit = EnemyUnit::new(1, p(0, 0));
    unit.shooting.cooldown = ready_cooldown();
    let sight = Sighting { first_hit: Some(7), player: 7, player_position: p(100, 0) };
    let first = update_enemy_ai(1, &mut unit.enemy, &mut unit.pose, &mut unit.shooting, &sight, &view(), &mesh, 400_000);
    assert!(first.is_none());
    assert_eq!(unit.enemy.shock_timer.elapsed, 0);
    let second = update_enemy_ai(1, &mut unit.enemy, &mut unit.pose, &mut unit.shooting, &sight, &view(), &mesh, 100_000);
    assert!(second.is_none());
}

#[test]
fn flicker_without_route_keeps_delay() {
    let mut mesh = EnemyNavMesh::new();
    mesh.register_level(&vec![(0, 0), (10, 0)], &Vec::new());
    mesh.bake();
    let mut unit = EnemyUnit::new(1, p(0, 0));
    let seen = Sighting { first_hit: Some(7), player: 7, player_position: p(500, 0) };
    update_enemy_ai(1, &mut unit.enemy, &mut unit.pose, &mut unit.shooting, &seen, &view(), &mesh, 100_000);
    update_enemy_ai(1, &mut unit.enemy, &mut unit.pose, &mut unit.shooting, &seen, &view(), &mesh, 100_000);
    assert_eq!(unit.enemy.shock_timer.elapsed, 100_000);
    let hidden = Sighting { first_hit: Some(3), player: 7, player_position: p(500, 0) };
    update_enemy_ai(1, &mut unit.enemy, &mut unit.pose, &mut unit.shooting, &hidden, &view(), &mesh, 100_000);
    assert!(unit.enemy.is_in_combat());
    assert_eq!(unit.enemy.shock_timer.elapsed, 100_000);
}

#[test]
fn losing_sight_turns_enemy_alert_toward_last_position() {
    let mesh = row_of_tiles(4);
    let mut unit = EnemyUnit::new(1, p(0, 0));
    let seen = Sighting { first_hit: Some(7), player: 7, player_position: p(100, 0) };
    update_enemy_ai(1, &mut unit.enemy, &mut unit.pose, &mut unit.shooting, &seen, &view(), &mesh, 100_000);
    assert!(unit.enemy.is_in_combat());
    assert_eq!(unit.pose.facing, p(100, 0));
    let blocked = Sighting { first_hit: Some(3), player: 7, player_position: p(100, 0) };
    let shot = update_enemy_ai(1, &mut unit.enemy, &mut unit.pose, &mut unit.shooting, &blocked, &view(), &mesh, 100_000);
    assert!(shot.is_none());
    assert!(unit.enemy.is_alert());
    assert_eq!(unit.enemy.shock_timer.elapsed, 0);
    match &unit.enemy.ai_state {
        EnemyAiState::Alert { path: Some(path), current } => {
            assert_eq!(*current, 0);
            assert_eq!(*path.last().unwrap(), p(100, 0));
        }
        _ => panic!("expected an alert state with a path"),
    }
}

#[test]
fn unreachable_target_keeps_combat_state() {
    let mut mesh = EnemyNavMesh::new();
    mesh.register_level(&vec![(0, 0), (10, 0)], &Vec::new());
    mesh.bake();
    let mut unit = EnemyUnit::new(1, p(0, 0));
    unit.enemy.ai_state = EnemyAiState::Combat { player_position: p(500, 0) };
    let blocked = Sighting { first_hit: None, player: 7, player_position: p(500, 0) };
    update_enemy_ai(1, &mut unit.enemy, &mut unit.pose, &mut unit.shooting, &blocked, &view(), &mesh, 100_000);
    match unit.enemy.ai_state {
        EnemyAiState::Combat { player_position } => assert_eq!(player_position, p(500, 0)),
        _ => panic!("the state should not change"),
    }
}

#[test]
fn hearing_radius_is_inclusive() {
    let mesh = row_of_tiles(12);
    let mut units = vec![EnemyUnit::new(1, p(0, 0)), EnemyUnit::new(2, p(-1, 0)), EnemyUnit::new(3, p(100, 0))];
    units[2].enemy.ai_state = EnemyAiState::Combat { player_position: p(200, 0) };
    alert_on_shot_sound(&mut units, ShootEvent(p(500, 0)), &mesh);
    assert!(units[0].enemy.is_alert());
    assert!(units[1].enemy.is_idle());
    assert!(units[2].enemy.is_in_combat());
    assert_eq!(units[0].enemy.current_waypoint().unwrap(), p(0, 0));
}

#[test]
fn alert_enemy_hears_new_shot() {
    let mesh = row_of_tiles(6);
    let mut unit = EnemyUnit::new(1, p(0, 0));
    unit.enemy.ai_state = EnemyAiState::Alert { path: Some(vec![p(50, 0)]), current: 0 };
    hear_shot(&mut unit.enemy, &unit.pose, ShootEvent(p(200, 0)), &mesh);
    match &unit.enemy.ai_state {
        EnemyAiState::Alert { path: Some(path), current } => {
            assert_eq!(*current, 0);
            assert_eq!(*path.last().unwrap(), p(200, 0));
        }
        _ => panic!("expected an alert state"),
    }
}

#[test]
fn path_following_progresses_and_ends_idle() {
    let mut unit = EnemyUnit::new(1, p(0, 0));
    unit.enemy.ai_state = EnemyAiState::Alert { path: Some(vec![p(100, 0), p(100, 60)]), current: 0 };
    let mut last = remaining(&unit);
    assert_eq!(last, 160);
    let mut ticks = 0;
    while !unit.enemy.is_idle() {
        update_enemy_position(&mut unit.enemy, &mut unit.pose, &unit.movement, 100_000);
        let now = remaining(&unit);
        assert!(now <= last);
        last = now;
        ticks += 1;
        assert!(ticks < 100);
    }
    assert_eq!(unit.pose.position, p(100, 60));
    assert_eq!(unit.pose.facing, p(0, 15));
}

#[test]
fn walking_step_is_speed_times_time() {
    let mut unit = EnemyUnit::new(1, p(0, 0));
    unit.enemy.ai_state = EnemyAiState::Alert { path: Some(vec![p(100, 0)]), current: 0 };
    update_enemy_position(&mut unit.enemy, &mut unit.pose, &unit.movement, 100_000);
    assert_eq!(unit.pose.position, p(15, 0));
    assert_eq!(unit.pose.facing, p(100, 0));
}

#[test]
fn waypoint_within_tolerance_advances() {
    let mut unit = EnemyUnit::new(1, p(0, 0));
    unit.enemy.ai_state = EnemyAiState::Alert { path: Some(vec![p(1, 0), p(80, 0)]), current: 0 };
    update_enemy_position(&mut unit.enemy, &mut unit.pose, &unit.movement, 100_000);
    assert_eq!(unit.pose.position, p(0, 0));
    assert_eq!(unit.enemy.current_waypoint(), Some(p(80, 0)));
}

#[test]
fn hits_remove_enemies_once() {
    let mut units = vec![EnemyUnit::new(1, p(0, 0)), EnemyUnit::new(2, p(50, 0)), EnemyUnit::new(3, p(100, 0))];
    let mut stats = Stats::new();
    let fallen = enemies_get_shot(&mut units, &vec![ShotEvent(2), ShotEvent(2), ShotEvent(5)], &mut stats);
    assert_eq!(fallen, vec![(2, p(50, 0))]);
    assert_eq!(units.len(), 2);
    assert_eq!(units[1].id, 3);
    assert_eq!(stats.enemies_killed, 1);
}

#[test]
fn slow_walker_still_reaches_the_end() {
    let mut unit = EnemyUnit::new(1, p(0, 0));
    unit.movement.speed = 1;
    unit.enemy.ai_state = EnemyAiState::Alert { path: Some(vec![p(7, 5), p(12, -3)]), current: 0 };
    let mut ticks = 0;
    while !unit.enemy.is_idle() {
        update_enemy_position(&mut unit.enemy, &mut unit.pose, &unit.movement, 40_000);
        ticks += 1;
        assert!(ticks <= 2 + 12 + 13);
    }
    assert_eq!(unit.pose.position, p(12, -3));
}
