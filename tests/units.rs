use crackhead_adventures::clock::TimeCounter;
use crackhead_adventures::countdown::Countdown;
use crackhead_adventures::effect::{EffectData, EffectKind};
use crackhead_adventures::enemy::Pose;
use crackhead_adventures::events::ShotEvent;
use crackhead_adventures::geometry::{isqrt, step_toward, Point};
use crackhead_adventures::player::{
    aim_facing, apply_player_hits, craft_magic_dust, footstep_due, key_direction, pick_up_cocaine, player_axis_move, player_get_shot,
    player_shoot, use_powerup, win_condition, BIG_POWERUP_DURATION, SMALL_POWERUP_DURATION, WEAPON_COOLDOWN,
};
use crackhead_adventures::settings::Settings;
use crackhead_adventures::stats::{calculate_stats, reset_stats, update_stats, Stats};
use crackhead_adventures::unit::{Health, Inventory, Movement, Shooting};

fn p(x: i64, y: i64) -> Point {
    Point::new(x, y)
}

#[test]
fn isqrt_is_floor_of_square_root() {
    assert_eq!(isqrt(0), 0);
    assert_eq!(isqrt(15), 3);
    assert_eq!(isqrt(16), 4);
    assert_eq!(isqrt(u64::MAX), 4_294_967_295);
}

#[test]
fn step_toward_rounds_toward_start() {
    assert_eq!(step_toward(p(0, 0), p(30, 40), 10), p(6, 8));
    assert_eq!(step_toward(p(0, 0), p(30, 40), 50), p(30, 40));
    assert_eq!(step_toward(p(0, 0), p(-3, 1), 1), p(-1, 0));
}

#[test]
fn countdown_finishes_once() {
    let mut c = Countdown::new(500);
    assert!(!c.tick(200));
    assert!(c.tick(300));
    assert!(c.finished());
    assert!(!c.tick(1));
    assert!(c.finished());
    assert_eq!(c.elapsed, 500);
    c.reset();
    assert!(!c.finished());
    assert_eq!(c.elapsed, 0);
}

#[test]
fn zero_countdown_finishes_on_first_tick() {
    let mut c = Countdown::new(0);
    assert!(!c.finished());
    assert!(c.tick(0));
}

#[test]
fn clock_scales_delta() {
    let mut t = TimeCounter::new();
    t.step(16_000);
    assert_eq!(t.delta(), 16_000);
    t.scale_den = 3;
    assert_eq!(t.delta(), 5_333);
    t.step(2_000_000);
    assert_eq!(t.seconds_since_startup(), 2);
}

#[test]
fn health_damage_and_heal() {
    let mut h = Health::new(100);
    assert!(!h.take_damage(30));
    assert_eq!(h.get_health(), 70);
    h.heal(50);
    assert_eq!(h.get_health(), 100);
    assert!(h.take_damage(100));
    assert_eq!(h.get_max_health(), 100);
    h.set_health(-5);
    assert_eq!(h.get_health(), -5);
}

#[test]
fn inventory_refuses_overdraw() {
    let mut inv = Inventory::new();
    assert_eq!(inv.get_small_powerup_quantity(), 1);
    assert!(!inv.subtract_small_powerup(3));
    assert_eq!(inv.get_small_powerup_quantity(), 1);
    inv.add_small_powerup(2);
    assert!(inv.subtract_small_powerup(3));
    assert_eq!(inv.get_small_powerup_quantity(), 0);
    assert!(!inv.subtract_big_powerup(1));
    inv.add_big_powerup(1);
    assert!(inv.subtract_big_powerup(1));
    assert_eq!(inv.get_big_powerup_quantity(), 0);
}

#[test]
fn big_powerup_round_trip_restores_components() {
    let mut m = Movement { speed: 10 };
    let mut h = Health::new(100);
    let mut s = Shooting { cooldown: Countdown::new(WEAPON_COOLDOWN) };
    let mut t = TimeCounter::new();
    let mut data = EffectData::new();
    data.apply(Some(EffectKind::BigPowerup), &mut m, &mut h, &mut s, &mut t, BIG_POWERUP_DURATION);
    assert_eq!(m.speed, 30);
    assert_eq!(s.cooldown.duration(), 100_000);
    assert_eq!((t.scale_num, t.scale_den), (1, 3));
    data.finish(&mut m, &mut s, &mut t);
    assert_eq!(m.speed, 10);
    assert_eq!(s.cooldown.duration(), WEAPON_COOLDOWN);
    assert_eq!((t.scale_num, t.scale_den), (1, 1));
    assert_eq!(data.effect, None);
}

#[test]
fn small_powerup_heals_and_speeds_up() {
    let mut m = Movement { speed: 10 };
    let mut h = Health::new(100);
    h.set_health(50);
    let mut s = Shooting { cooldown: Countdown::new(WEAPON_COOLDOWN) };
    let mut t = TimeCounter::new();
    EffectKind::SmallPowerup.apply(&mut m, &mut h, &mut s, &mut t);
    assert_eq!(m.speed, 20);
    assert_eq!(h.get_health(), 85);
    EffectKind::SmallPowerup.finish(&mut m, &mut s, &mut t);
    assert_eq!(m.speed, 10);
}

#[test]
fn powerup_runs_out_and_reverts() {
    let mut inv = Inventory::new();
    let mut m = Movement { speed: 10 };
    let mut h = Health::new(100);
    let mut s = Shooting { cooldown: Countdown::new(WEAPON_COOLDOWN) };
    let mut data = EffectData::new();
    let mut t = TimeCounter::new();
    let mut stats = Stats::new();
    t.step(16_000);
    let first = use_powerup(&mut inv, &mut m, &mut h, &mut s, &mut data, &mut t, &mut stats, true, false);
    assert!(first.finished);
    assert_eq!(first.started, Some(EffectKind::SmallPowerup));
    assert_eq!(m.speed, 20);
    assert_eq!(inv.get_small_powerup_quantity(), 0);
    assert_eq!(stats.small_powerup_used, 1);
    t.step(SMALL_POWERUP_DURATION);
    let second = use_powerup(&mut inv, &mut m, &mut h, &mut s, &mut data, &mut t, &mut stats, true, true);
    assert!(second.finished);
    assert_eq!(second.started, None);
    assert_eq!(m.speed, 10);
    assert_eq!(data.effect, None);
}

#[test]
fn settings_volume_steps_are_clamped() {
    let mut s = Settings::new();
    s.add_sfx();
    assert_eq!(s.sfx_volume, 100);
    s.sub_sfx();
    assert_eq!(s.sfx_volume, 95);
    for _ in 0..30 {
        s.sub_music();
    }
    assert_eq!(s.music_volume, 0);
    s.add_music();
    assert_eq!(s.music_volume, 5);
}

#[test]
fn stats_accuracy_uses_whole_kills_per_shot() {
    let mut stats = Stats::new();
    stats.enemies_killed = 3;
    stats.shot_fired = 2;
    update_stats(&mut stats, 1_000);
    calculate_stats(&mut stats);
    assert_eq!(stats.shot_accuracy, 100);
    assert_eq!(stats.elapsed, 1_000);
    update_stats(&mut stats, 1_000);
    assert_eq!(stats.elapsed, 1_000);
    reset_stats(&mut stats);
    assert_eq!(stats, Stats::new());
}

#[test]
fn volley_fires_four_pellets() {
    let pose = Pose::new(p(0, 0));
    let mut shooting = Shooting { cooldown: Countdown::new(WEAPON_COOLDOWN) };
    let mut stats = Stats::new();
    assert!(player_shoot(1, &pose, &mut shooting, &mut stats, true, 100_000).is_none());
    let volley = player_shoot(1, &pose, &mut shooting, &mut stats, true, 400_000).expect("cooldown over");
    assert_eq!(volley.bullets.len(), 4);
    assert!(volley.bullets.iter().all(|b| b.owner == 1 && b.position == p(0, 50)));
    assert!(volley.bullets[1].heading == p(0, 1_000_000));
    assert!(volley.bullets[0].heading.x > 0 && volley.bullets[3].heading.x < 0);
    assert_eq!(stats.shot_fired, 1);
    assert!(!shooting.cooldown.finished());
}

#[test]
fn diagonal_walk_splits_reach() {
    let d = key_direction(true, false, false, true);
    assert_eq!(d, p(1000, 1000));
    assert_eq!(player_axis_move(d, true, 10, 100_000, None), 34);
    assert_eq!(player_axis_move(d, false, 10, 100_000, Some(20)), 13);
    assert_eq!(player_axis_move(key_direction(false, false, true, false), true, 10, 100_000, None), -49);
    assert_eq!(player_axis_move(key_direction(true, true, false, false), false, 10, 100_000, None), 0);
}

#[test]
fn footsteps_need_movement_and_timer() {
    let mut timer = Countdown::new(400_000);
    assert!(!footstep_due(&mut timer, true, 300_000));
    assert!(!footstep_due(&mut timer, false, 200_000));
    assert!(footstep_due(&mut timer, true, 0));
    assert!(!timer.finished());
}

#[test]
fn aim_points_from_window_centre() {
    assert_eq!(aim_facing(p(1000, 100), 1280, 720), p(360, -260));
}

#[test]
fn hits_on_player_deal_bounded_damage() {
    let mut h = Health::new(100);
    let mut stats = Stats::new();
    let dead = player_get_shot(1, &mut h, &mut stats, &vec![ShotEvent(2), ShotEvent(1)]);
    assert!(!dead);
    assert!(h.get_health() >= 65 && h.get_health() <= 75);
    assert_eq!(stats.damage_taken, 100 - h.get_health());
}

#[test]
fn hits_on_others_leave_player_alone() {
    let mut h = Health::new(100);
    let mut stats = Stats::new();
    assert!(!player_get_shot(1, &mut h, &mut stats, &vec![ShotEvent(2)]));
    assert_eq!(h.get_health(), 100);
    assert_eq!(stats.damage_taken, 0);
}

#[test]
fn lethal_hit_reports_death() {
    let mut h = Health::new(100);
    h.set_health(20);
    let mut stats = Stats::new();
    assert!(player_get_shot(1, &mut h, &mut stats, &vec![ShotEvent(1)]));
    assert_eq!(stats.damage_taken, 20);
}

#[test]
fn pickup_reach_is_inclusive() {
    let mut inv = Inventory::new();
    let mut stats = Stats::new();
    let taken = pick_up_cocaine(&mut inv, &mut stats, p(0, 0), &vec![(5, p(25, 0)), (6, p(26, 0)), (7, p(0, -20))]);
    assert_eq!(taken, vec![5, 7]);
    assert_eq!(inv.get_small_powerup_quantity(), 3);
    assert_eq!(stats.small_powerup_collected, 2);
}

#[test]
fn crafting_costs_three_small() {
    let mut inv = Inventory::new();
    let mut stats = Stats::new();
    assert!(!craft_magic_dust(&mut inv, &mut stats, true));
    inv.add_small_powerup(2);
    assert!(!craft_magic_dust(&mut inv, &mut stats, false));
    assert!(craft_magic_dust(&mut inv, &mut stats, true));
    assert_eq!(inv.get_small_powerup_quantity(), 0);
    assert_eq!(inv.get_big_powerup_quantity(), 1);
    assert_eq!(stats.big_powerup_crafted, 1);
}

#[test]
fn win_needs_less_than_a_tile() {
    assert!(win_condition(p(0, 0), &vec![p(200, 0), p(49, 0)]));
    assert!(!win_condition(p(0, 0), &vec![p(50, 0)]));
}

#[test]
fn health_bar_percentage_is_clamped() {
    let mut h = Health::new(200);
    h.set_health(50);
    assert_eq!(h.percent(), 25);
    h.set_health(-10);
    assert_eq!(h.percent(), 0);
    h.set_health(300);
    assert_eq!(h.percent(), 100);
}

#[test]
fn powerup_bar_shows_time_left() {
    let mut data = EffectData::new();
    assert_eq!(data.remaining_percent(), None);
    data.effect = Some(EffectKind::SmallPowerup);
    data.duration = Countdown::new(SMALL_POWERUP_DURATION);
    data.duration.tick(1_250_000);
    assert_eq!(data.remaining_percent(), Some(75));
}

#[test]
fn playback_levels_follow_settings() {
    let mut s = Settings::new();
    s.sub_sfx();
    assert_eq!(s.sfx_level(100), 95);
    assert_eq!(s.music_level(25), 25);
}

#[test]
fn clock_reports_whole_milliseconds() {
    let mut t = TimeCounter::new();
    t.step(2_500_999);
    assert_eq!(t.millis_since_startup(), 2_500);
}

#[test]
fn player_hits_apply_given_damage() {
    let mut h = Health::new(100);
    let mut stats = Stats::new();
    let hits = vec![ShotEvent(1), ShotEvent(2), ShotEvent(1)];
    assert!(!apply_player_hits(1, &mut h, &mut stats, &hits, &vec![30, 35, 30]));
    assert_eq!(h.get_health(), 40);
    assert_eq!(stats.damage_taken, 60);
}

#[test]
fn hits_after_death_are_ignored() {
    let mut h = Health::new(100);
    h.set_health(20);
    let mut stats = Stats::new();
    assert!(apply_player_hits(1, &mut h, &mut stats, &vec![ShotEvent(1), ShotEvent(1)], &vec![25, 25]));
    assert_eq!(h.get_health(), -5);
    assert_eq!(stats.damage_taken, 20);
}
