use crackhead_adventures::bullet::{update_bullet, update_bullets, Bullet, BULLET_SPEED};
use crackhead_adventures::enemy::{shoot, spawn_bullet, Pose};
use crackhead_adventures::events::{EventQueue, ShootEvent, ShotEvent};
use crackhead_adventures::geometry::Point;

fn p(x: i64, y: i64) -> Point {
    Point::new(x, y)
}

fn bullet_up(owner: u64) -> Bullet {
    spawn_bullet(owner, &Pose::new(p(0, 0)), 0).expect("muzzle inside the world")
}

#[test]
fn bullet_spawns_one_tile_ahead() {
    let b = bullet_up(3);
    assert_eq!(b.position, p(0, 50));
    assert_eq!(b.heading, p(0, 1_000_000));
    assert_eq!(b.speed, BULLET_SPEED);
    assert_eq!(b.owner, 3);
    assert!(b.alive);
}

#[test]
fn spread_turns_the_heading() {
    let b = spawn_bullet(3, &Pose::new(p(0, 0)), 50).unwrap();
    assert_eq!(b.heading, p(-50_000, 1_000_000));
}

#[test]
fn bullet_moves_when_nothing_is_hit() {
    let mut b = bullet_up(3);
    assert_eq!(update_bullet(&mut b, None, 100_000), None);
    assert_eq!(b.position, p(0, 250));
    assert!(b.alive);
}

#[test]
fn bullet_ignores_its_shooter() {
    let mut b = bullet_up(3);
    assert_eq!(update_bullet(&mut b, Some(3), 100_000), None);
    assert!(b.alive);
    assert_eq!(b.position, p(0, 250));
}

#[test]
fn bullet_reports_a_single_hit() {
    let mut b = bullet_up(3);
    assert_eq!(update_bullet(&mut b, Some(9), 100_000), Some(ShotEvent(9)));
    assert!(!b.alive);
    assert_eq!(update_bullet(&mut b, Some(9), 100_000), None);
    assert_eq!(update_bullet(&mut b, Some(4), 100_000), None);
}

#[test]
fn bullet_leaving_the_world_is_spent_silently() {
    let mut b = Bullet { position: p(0, 16_777_000), heading: p(0, 1000), speed: 2000, owner: 1, alive: true };
    assert_eq!(update_bullet(&mut b, None, 1_000_000), None);
    assert!(!b.alive);
}

#[test]
fn update_bullets_reports_hits_in_order() {
    let mut bullets = vec![bullet_up(1), bullet_up(2), bullet_up(3)];
    let events = update_bullets(&mut bullets, &vec![Some(7), None, Some(8)], 100_000);
    assert_eq!(events, vec![ShotEvent(7), ShotEvent(8)]);
    assert!(!bullets[0].alive);
    assert!(bullets[1].alive);
    assert!(!bullets[2].alive);
}

#[test]
fn point_blank_shot_hits_without_bullet() {
    let pose = Pose::new(p(0, 0));
    let outcome = shoot(1, &pose, 2, p(30, 0), 0);
    assert_eq!(outcome.fired, ShootEvent(p(0, 0)));
    assert_eq!(outcome.hit, Some(ShotEvent(2)));
    assert!(outcome.bullet.is_none());
}

#[test]
fn distant_shot_spawns_bullet_owned_by_shooter() {
    let pose = Pose { position: p(0, 0), facing: p(100, 0) };
    let outcome = shoot(1, &pose, 2, p(100, 0), 0);
    assert_eq!(outcome.hit, None);
    let b = outcome.bullet.unwrap();
    assert_eq!(b.position, p(50, 0));
    assert_eq!(b.owner, 1);
}

#[test]
fn event_queue_drains_in_order() {
    let mut q = EventQueue::new();
    q.send(ShotEvent(1));
    q.send(ShotEvent(2));
    assert_eq!(q.len(), 2);
    assert_eq!(q.drain(), vec![ShotEvent(1), ShotEvent(2)]);
    assert_eq!(q.len(), 0);
}
