use bevy::time::{Timer as BevyTimer, TimerMode as BevyMode};
use bevy_turborand::{DelegatedRng, GlobalRng};
use std::time::Duration;
use survival_core::attribute::{
    freeze_all_movement, insert_common, update_timer_with_attack_speed, AttackSpeed, AttackSpeedTimer,
    Experience, Health, MoveSpeed, Timer, TimerMode,
};
use survival_core::geometry::{farther_than, isqrt, scale_to, Pos, Vel};
use survival_core::hostile::{
    accepts_sample,
    direction_from, increase_difficulty, move_to_player, random_direction, spawn, spawn_at,
    update_spawn_timer, Hostile, Score, SpawnRate, SpawnTimer,
};
use survival_core::loot::{drop_loot, loot_of_death, move_loot_to_player, pickup_loot, Event, Loot, LootDrop};
use survival_core::player::{die, move_player};
use survival_core::projectile::Aim;
use survival_core::{Entity, GameState};

fn rate_at(score: u128) -> u64 {
    let mut rate = SpawnRate(0);
    increase_difficulty(&mut rate, &Score(score), true);
    rate.0
}

#[test]
fn spawn_interval_follows_the_curve() {
    assert_eq!(rate_at(0), 3_000_000_000);
    assert_eq!(rate_at(500), 1_500_000_000);
    assert_eq!(rate_at(10), 2_941_176_470);
    assert_eq!(rate_at(u128::MAX), 1_000_000);
}

#[test]
fn spawn_interval_never_grows_and_stays_positive() {
    let mut last = u64::MAX;
    for score in [0u128, 10, 20, 100, 1_000, 50_000, 1_000_000_000, 10_000_000_000_000, u128::MAX] {
        let r = rate_at(score);
        assert!(r <= last);
        assert!(r > 0);
        last = r;
    }
}

#[test]
fn unchanged_score_keeps_the_rate() {
    let mut rate = SpawnRate(42);
    increase_difficulty(&mut rate, &Score(10), false);
    assert_eq!(rate, SpawnRate(42));
}

#[test]
fn spawn_timer_takes_the_new_rate_and_keeps_progress() {
    let mut timer = SpawnTimer(Timer::new(2_000_000_000, TimerMode::Repeating));
    timer.0.tick(500_000_000);
    update_spawn_timer(&mut timer, &SpawnRate(1_000_000_000), true);
    assert_eq!(timer.0.duration, 1_000_000_000);
    assert_eq!(timer.0.elapsed, 500_000_000);
    update_spawn_timer(&mut timer, &SpawnRate(7), false);
    assert_eq!(timer.0.duration, 1_000_000_000);
}

#[test]
fn repeating_timer_counts_laps() {
    let mut t = Timer::new(2_000_000_000, TimerMode::Repeating);
    t.tick(5_000_000_000);
    assert!(t.just_finished());
    assert_eq!(t.times_finished_this_tick, 2);
    assert_eq!(t.elapsed, 1_000_000_000);
    t.tick(100);
    assert!(!t.just_finished());
}

#[test]
fn once_timer_stays_finished_until_reset() {
    let mut t = Timer::new(500, TimerMode::Once);
    t.tick(300);
    assert!(!t.finished());
    t.tick(300);
    assert!(t.finished() && t.just_finished());
    assert_eq!(t.elapsed, 500);
    t.tick(300);
    assert!(t.finished() && !t.just_finished());
    t.reset();
    assert!(!t.finished());
    assert_eq!(t.elapsed, 0);
}

#[test]
fn shorter_attack_speed_counts_from_the_next_tick() {
    let mut timer = AttackSpeedTimer(Timer::new(500, TimerMode::Once));
    update_timer_with_attack_speed(&mut timer, &AttackSpeed(500), 200);
    assert!(!timer.0.finished());
    update_timer_with_attack_speed(&mut timer, &AttackSpeed(250), 100);
    assert!(timer.0.finished());
    assert_eq!(timer.0.duration, 250);
}

#[test]
fn integer_square_roots() {
    assert_eq!(isqrt(0), 0);
    assert_eq!(isqrt(24), 4);
    assert_eq!(isqrt(25), 5);
    assert_eq!(isqrt(1 << 80), 1 << 40);
}

#[test]
fn scaling_turns_vectors_to_length() {
    assert_eq!(scale_to(3, 4, 5_000), Vel { x: 3_000, y: 4_000 });
    assert_eq!(scale_to(-3, 4, 5_000), Vel { x: -3_000, y: 4_000 });
    assert_eq!(scale_to(0, 0, 5_000), Vel { x: 0, y: 0 });
    assert_eq!(scale_to(0, -9, 100), Vel { x: 0, y: -100 });
}

#[test]
fn range_test_is_strict() {
    let o = Pos { x: 0, y: 0 };
    assert!(!farther_than(Pos { x: 3, y: 4 }, o, 5));
    assert!(farther_than(Pos { x: 3, y: 5 }, o, 5));
    assert!(farther_than(o, o, -1));
}

#[test]
fn hostiles_pursue_the_player() {
    let base = Hostile {
        entity: Entity(1),
        position: Pos { x: 0, y: 0 },
        velocity: Vel { x: 9, y: 9 },
        attributes: insert_common(),
    };
    let mut on_top = base;
    on_top.entity = Entity(2);
    on_top.position = Pos { x: 300_000, y: 400_000 };
    let mut hostiles = vec![base, on_top];
    move_to_player(&mut hostiles, Pos { x: 300_000, y: 400_000 });
    assert_eq!(hostiles[0].velocity, Vel { x: 60_000, y: 80_000 });
    assert_eq!(hostiles[1].velocity, Vel { x: 0, y: 0 });
}

#[test]
fn hostiles_appear_on_the_spawn_circle() {
    let h = spawn_at(Pos { x: 100, y: 100 }, 0, -7, Entity(3));
    assert_eq!(h.position, Pos { x: 100, y: -999_900 });
    assert_eq!(h.attributes, insert_common());
    assert_eq!(h.velocity, Vel { x: 0, y: 0 });
    let fallback = spawn_at(Pos { x: 0, y: 0 }, 0, 0, Entity(4));
    assert_eq!(fallback.position, Pos { x: 1_000_000, y: 0 });
    assert_eq!(direction_from(600, 800, 10), Vel { x: 6, y: 8 });
}

#[test]
fn spawn_timer_spawns_one_hostile_per_lapse() {
    let mut rng = GlobalRng::with_seed(21);
    let mut timer = SpawnTimer(Timer::new(2_000_000_000, TimerMode::Repeating));
    let player = Pos { x: 0, y: 0 };
    assert!(spawn(&mut timer, 1_000_000_000, &mut rng, player, Entity(1)).is_none());
    let h = spawn(&mut timer, 1_000_000_000, &mut rng, player, Entity(1)).unwrap();
    let (x, y) = (h.position.x as i64, h.position.y as i64);
    let d = x * x + y * y;
    assert!(d <= 1_000_001 * 1_000_001 && d >= 999_998 * 999_998, "distance squared {d}");
    assert_eq!(h.entity, Entity(1));
}

#[test]
fn random_directions_have_the_asked_length() {
    let mut rng = GlobalRng::with_seed(33);
    let mut seen_negative = false;
    for _ in 0..100 {
        let v = random_direction(&mut rng, 10_000);
        let len = v.x * v.x + v.y * v.y;
        assert!(len <= 10_001 * 10_001 && len >= 9_998 * 9_998, "length squared {len}");
        seen_negative |= v.x < 0 || v.y < 0;
    }
    assert!(seen_negative);
}

#[test]
fn player_dies_when_health_runs_out() {
    let mut state = GameState::Game;
    die(&Health(1), true, &mut state);
    assert_eq!(state, GameState::Game);
    die(&Health(0), false, &mut state);
    assert_eq!(state, GameState::Game);
    die(&Health(0), true, &mut state);
    assert_eq!(state, GameState::Dead);
}

#[test]
fn player_walks_by_its_speed() {
    let mut pos = Pos { x: -50_000, y: 0 };
    move_player(&mut pos, Aim { left: false, right: true, up: true, down: false }, &MoveSpeed(2_500));
    assert_eq!(pos, Pos { x: -47_500, y: 2_500 });
    let mut edge = Pos { x: i32::MAX - 1, y: 0 };
    move_player(&mut edge, Aim { left: false, right: true, up: false, down: false }, &MoveSpeed(2_500));
    assert_eq!(edge.x, i32::MAX);
}

#[test]
fn physics_runs_only_while_playing() {
    let mut active = true;
    freeze_all_movement(&mut active, GameState::LevelUp, false);
    assert!(active);
    freeze_all_movement(&mut active, GameState::LevelUp, true);
    assert!(!active);
    freeze_all_movement(&mut active, GameState::Game, true);
    assert!(active);
}

fn drop_of(id: u64, kind: Loot) -> LootDrop {
    LootDrop { entity: Entity(id), kind, position: Pos { x: 0, y: 0 }, velocity: Vel { x: 0, y: 0 } }
}

#[test]
fn touched_loot_is_picked_up() {
    let mut loot = vec![drop_of(1, Loot::Experience), drop_of(2, Loot::Health), drop_of(3, Loot::Experience), drop_of(4, Loot::Experience)];
    let mut xp = Experience { current: 5, cap: 100 };
    let mut health = Health(50);
    pickup_loot(&mut loot, &vec![Entity(1), Entity(2), Entity(4)], &mut xp, &mut health);
    assert_eq!(xp.current, 7);
    assert_eq!(health, Health(51));
    assert_eq!(loot.len(), 1);
    assert_eq!(loot[0].entity, Entity(3));
}

#[test]
fn loot_turns_toward_the_player() {
    let mut loot = vec![drop_of(1, Loot::Experience)];
    move_loot_to_player(&mut loot, Pos { x: 0, y: 5_000 }, 100_000_000);
    assert_eq!(loot[0].velocity, Vel { x: 0, y: 300_000 });
    move_loot_to_player(&mut loot, Pos { x: 0, y: 5_000 }, 10_000_000_000);
    assert_eq!(loot[0].velocity, Vel { x: 0, y: 1_000_000 });
}

#[test]
fn deaths_scatter_loot() {
    let mut rng = GlobalRng::with_seed(17);
    let mut next = 500u64;
    let events = vec![Event(Pos { x: 10, y: 20 }), Event(Pos { x: -5, y: 0 })];
    let drops = drop_loot(&events, 0, &mut rng, &mut next);
    assert!(drops.len() >= 20 && drops.len() <= 58);
    assert_eq!(next, 500 + drops.len() as u64);
    for (i, d) in drops.iter().enumerate() {
        assert_eq!(d.entity, Entity(500 + i as u64));
        assert_eq!(d.kind, Loot::Experience);
        assert!(d.position == Pos { x: 10, y: 20 } || d.position == Pos { x: -5, y: 0 });
        assert!(d.velocity.x.abs() <= 1_000_000 && d.velocity.y.abs() <= 1_000_000);
    }
    let with_health = drop_loot(&events, 1_000, &mut rng, &mut next);
    assert!(with_health.iter().any(|d| d.kind == Loot::Health));
}

#[test]
fn samples_are_kept_only_inside_the_disc() {
    assert!(accepts_sample(600, 800));
    assert!(accepts_sample(-1, 0));
    assert!(!accepts_sample(0, 0));
    assert!(!accepts_sample(1000, 1));
    assert!(!accepts_sample(-800, 700));
}

#[test]
fn each_death_drops_experience_then_optional_health() {
    let mut rng = GlobalRng::with_seed(29);
    let mut next = 0u64;
    let a = Pos { x: 1, y: 1 };
    let b = Pos { x: 2, y: 2 };
    let drops = drop_loot(&vec![Event(a), Event(b)], 1_000, &mut rng, &mut next);
    for at in [a, b] {
        let block: Vec<&LootDrop> = drops.iter().filter(|d| d.position == at).collect();
        let exp = block.iter().take_while(|d| d.kind == Loot::Experience).count();
        let heal = block.len() - exp;
        assert!((10..=29).contains(&exp), "experience pieces {exp}");
        assert!((1..=19).contains(&heal), "health pieces {heal}");
        assert!(block[exp..].iter().all(|d| d.kind == Loot::Health));
        for d in block {
            let len = d.velocity.x * d.velocity.x + d.velocity.y * d.velocity.y;
            assert!(len <= 1_000_001 * 1_000_001 && len >= 999_998 * 999_998);
        }
    }
    assert!(drops.iter().take_while(|d| d.position == a).count() > 0);
    assert!(drops.iter().skip_while(|d| d.position == a).all(|d| d.position == b));
}

fn agrees(ours: &Timer, theirs: &BevyTimer) {
    assert_eq!(ours.duration as u128, theirs.duration().as_nanos());
    assert_eq!(ours.elapsed as u128, theirs.elapsed().as_nanos());
    assert_eq!(ours.finished, theirs.finished());
    assert_eq!(ours.just_finished(), theirs.just_finished());
    assert_eq!(ours.times_finished_this_tick, theirs.times_finished_this_tick());
}

#[test]
fn timer_matches_bevy_timer() {
    let mut rng = GlobalRng::with_seed(99);
    for (mode, theirs_mode) in [(TimerMode::Once, BevyMode::Once), (TimerMode::Repeating, BevyMode::Repeating)] {
        let mut ours = Timer::new(500_000_000, mode);
        let mut theirs = BevyTimer::new(Duration::from_nanos(500_000_000), theirs_mode);
        for _ in 0..2_000u32 {
            match rng.u32(0..10) {
                0 => {
                    let d = rng.u64(1..2_000_000_000);
                    ours.set_duration(d);
                    theirs.set_duration(Duration::from_nanos(d));
                }
                1 => {
                    ours.reset();
                    theirs.reset();
                }
                _ => {
                    let delta = rng.u64(0..400_000_000);
                    ours.tick(delta);
                    theirs.tick(Duration::from_nanos(delta));
                }
            }
            agrees(&ours, &theirs);
        }
    }
}

#[test]
fn health_drops_exactly_when_the_heal_draw_is_below_the_chance() {
    let at = Pos { x: 4, y: -4 };
    let dirs: Vec<Vel> = (0..15).map(|i| Vel { x: i, y: 0 }).collect();
    let mut out = Vec::new();
    let mut next = 7u64;
    loot_of_death(&mut out, at, 12, 49, 50, 3, &dirs, &mut next);
    assert_eq!(out.len(), 15);
    assert_eq!(next, 22);
    assert!(out[..12].iter().all(|d| d.kind == Loot::Experience));
    assert!(out[12..].iter().all(|d| d.kind == Loot::Health));
    assert!(out.iter().all(|d| d.position == at));
    assert_eq!(out[14].entity, Entity(21));
    assert_eq!(out[14].velocity, Vel { x: 14, y: 0 });

    let mut none = Vec::new();
    loot_of_death(&mut none, at, 12, 50, 50, 3, &dirs[..12].to_vec(), &mut next);
    assert_eq!(none.len(), 12);
    assert!(none.iter().all(|d| d.kind == Loot::Experience));
}

#[test]
fn timer_matches_bevy_on_many_laps() {
    let mut ours = Timer::new(1, TimerMode::Repeating);
    let mut theirs = BevyTimer::new(Duration::from_nanos(1), BevyMode::Repeating);
    ours.tick(5_000_000_000);
    theirs.tick(Duration::from_nanos(5_000_000_000));
    agrees(&ours, &theirs);
}
