use bevy_turborand::GlobalRng;
use survival_core::attribute::{insert_common, AttackRange, AttackSpeedTimer, Damage, DupChance, Health, Timer, TimerMode};
use survival_core::geometry::{Pos, Vel};
use survival_core::hostile::{
    attack_player, despawn_all_hostiles, despawn_hostiles, take_hit, EnemyDeathEvent, Hostile, Score,
};
use survival_core::loot;
use survival_core::projectile::{
    despawn_dead_projectiles, detect_collisions, handle_collision, hit_roll, resolve_collisions,
    resolve_hit,
    spawn_projectile, update_projectile_speed, Aim, CollisionEvent, HitRoll, Projectile,
    ProjectileEvent, ProjectileSpeed, ShootEvent,
};
use survival_core::Entity;

fn hostile(id: u64, health: i32, at: Pos) -> Hostile {
    let mut attributes = insert_common();
    attributes.health = Health(health);
    Hostile { entity: Entity(id), position: at, velocity: Vel { x: 0, y: 0 }, attributes }
}

fn projectile(id: u64, last_hit: Option<Entity>) -> Projectile {
    Projectile {
        entity: Entity(id),
        position: Pos { x: 5, y: 5 },
        velocity: Vel { x: 1_000, y: 0 },
        last_hit,
    }
}

const STILL: HitRoll = HitRoll { duplicate: None, bounce: Vel { x: 0, y: 500 } };

#[test]
fn collisions_are_matched_in_either_order() {
    let events = vec![
        CollisionEvent::Started(Entity(1), Entity(10)),
        CollisionEvent::Started(Entity(11), Entity(2)),
        CollisionEvent::Stopped(Entity(1), Entity(10)),
        CollisionEvent::Started(Entity(1), Entity(2)),
        CollisionEvent::Started(Entity(10), Entity(11)),
        CollisionEvent::Started(Entity(1), Entity(99)),
    ];
    let found = detect_collisions(&events, &vec![Entity(1), Entity(2)], &vec![Entity(10), Entity(11)]);
    assert_eq!(
        found,
        vec![
            ProjectileEvent { projectile: Entity(1), target: Entity(10) },
            ProjectileEvent { projectile: Entity(2), target: Entity(11) },
        ]
    );
}

#[test]
fn plain_hit_damages_once_and_spends_the_projectile() {
    let o = resolve_hit(projectile(1, None), Entity(10), STILL, Entity(50));
    assert!(o.damaged);
    assert_eq!(o.survivor, None);
    assert_eq!(o.duplicate, None);
}

#[test]
fn duplication_adds_one_projectile_tagged_with_the_target() {
    let roll = HitRoll { duplicate: Some(Vel { x: 0, y: -700 }), bounce: Vel { x: 1, y: 1 } };
    let o = resolve_hit(projectile(1, None), Entity(10), roll, Entity(50));
    assert!(o.damaged);
    assert_eq!(o.survivor, None);
    let d = o.duplicate.unwrap();
    assert_eq!(d.entity, Entity(50));
    assert_eq!(d.last_hit, Some(Entity(10)));
    assert_eq!(d.position, Pos { x: 5, y: 5 });
    assert_eq!(d.velocity, Vel { x: 0, y: -700 });
}

#[test]
fn duplicate_bounces_off_its_source_without_damage() {
    let roll = HitRoll { duplicate: Some(Vel { x: 3, y: 4 }), bounce: Vel { x: -9, y: 0 } };
    let o = resolve_hit(projectile(1, Some(Entity(10))), Entity(10), roll, Entity(60));
    assert!(!o.damaged);
    assert_eq!(o.survivor.unwrap().velocity, Vel { x: -9, y: 0 });
    assert_eq!(o.survivor.unwrap().entity, Entity(1));
    assert!(o.duplicate.is_some());
}

#[test]
fn three_hits_kill_a_hostile_of_twenty_five() {
    let mut hostiles = vec![hostile(10, 25, Pos { x: 7_000, y: -3_000 })];
    let mut projectiles = vec![projectile(1, None), projectile(2, None), projectile(3, None)];
    let mut next = 100u64;
    let mut score = Score(0);
    for (i, id) in [1u64, 2].iter().enumerate() {
        let events = vec![ProjectileEvent { projectile: Entity(*id), target: Entity(10) }];
        resolve_collisions(&events, &vec![STILL], &mut projectiles, &mut hostiles, &mut next, 10);
        assert_eq!(projectiles.len(), 2 - i);
    }
    assert_eq!(hostiles[0].attributes.health, Health(5));
    let (deaths, drops) = despawn_hostiles(&mut hostiles, &mut score);
    assert!(deaths.is_empty() && drops.is_empty());
    let events = vec![ProjectileEvent { projectile: Entity(3), target: Entity(10) }];
    resolve_collisions(&events, &vec![STILL], &mut projectiles, &mut hostiles, &mut next, 10);
    assert_eq!(hostiles[0].attributes.health, Health(0));
    let (deaths, drops) = despawn_hostiles(&mut hostiles, &mut score);
    assert_eq!(deaths, vec![EnemyDeathEvent(Pos { x: 7_000, y: -3_000 })]);
    assert_eq!(drops, vec![loot::Event(Pos { x: 7_000, y: -3_000 })]);
    assert_eq!(score, Score(10));
    assert!(hostiles.is_empty());
    assert!(projectiles.is_empty());
}

#[test]
fn two_contacts_on_two_hostiles_damage_both() {
    let mut hostiles = vec![hostile(10, 50, Pos { x: 0, y: 0 }), hostile(11, 50, Pos { x: 0, y: 0 })];
    let mut projectiles = vec![projectile(1, None), projectile(2, None)];
    let mut next = 100u64;
    let events = vec![
        ProjectileEvent { projectile: Entity(1), target: Entity(10) },
        ProjectileEvent { projectile: Entity(2), target: Entity(11) },
        ProjectileEvent { projectile: Entity(2), target: Entity(11) },
    ];
    resolve_collisions(&events, &vec![STILL, STILL, STILL], &mut projectiles, &mut hostiles, &mut next, 35);
    assert_eq!(hostiles[0].attributes.health.0, 15);
    assert_eq!(hostiles[1].attributes.health.0, 15);
    assert_eq!(next, 100);
}

#[test]
fn certain_duplication_spawns_exactly_one_more() {
    let mut rng = GlobalRng::with_seed(9);
    let mut hostiles = vec![hostile(10, 100, Pos { x: 0, y: 0 })];
    let mut projectiles = vec![projectile(1, None)];
    let mut next = 100u64;
    let events = vec![ProjectileEvent { projectile: Entity(1), target: Entity(10) }];
    handle_collision(
        &events, &mut projectiles, &mut hostiles, &mut next, &Damage(35), &DupChance(1_000),
        &ProjectileSpeed(500_000), &mut rng,
    );
    assert_eq!(hostiles[0].attributes.health.0, 65);
    assert_eq!(projectiles.len(), 1);
    assert_eq!(projectiles[0].entity, Entity(100));
    assert_eq!(projectiles[0].last_hit, Some(Entity(10)));
    let v = projectiles[0].velocity;
    assert!(v.x.abs() <= 500_000 && v.y.abs() <= 500_000);
    assert!(v.x != 0 || v.y != 0);
    assert_eq!(next, 101);
}

#[test]
fn no_duplication_at_zero_chance() {
    let mut rng = GlobalRng::with_seed(4);
    let mut hostiles = vec![hostile(10, 100, Pos { x: 0, y: 0 })];
    let mut projectiles = vec![projectile(1, None)];
    let mut next = 100u64;
    let events = vec![ProjectileEvent { projectile: Entity(1), target: Entity(10) }];
    handle_collision(
        &events, &mut projectiles, &mut hostiles, &mut next, &Damage(35), &DupChance(0),
        &ProjectileSpeed(500_000), &mut rng,
    );
    assert!(projectiles.is_empty());
    assert_eq!(next, 100);
}

#[test]
fn damage_never_drops_health_below_zero() {
    assert_eq!(take_hit(25, 10), 15);
    assert_eq!(take_hit(5, 10), 0);
    assert_eq!(take_hit(i32::MIN, 1), 0);
}

#[test]
fn hostiles_strike_only_when_touching_and_ready() {
    let mut ready = hostile(10, 100, Pos { x: 0, y: 0 });
    ready.attributes.attack_speed_timer.0.finished = true;
    ready.attributes.attack_speed_timer.0.elapsed = 500_000_000;
    let mut far = ready;
    far.entity = Entity(11);
    let cooling = hostile(12, 100, Pos { x: 0, y: 0 });
    let mut hostiles = vec![ready, far, cooling];
    let mut health = Health(100);
    attack_player(&mut hostiles, &vec![Entity(10), Entity(12)], &mut health);
    assert_eq!(health, Health(65));
    assert!(!hostiles[0].attributes.attack_speed_timer.0.finished);
    assert_eq!(hostiles[0].attributes.attack_speed_timer.0.elapsed, 0);
    assert!(hostiles[1].attributes.attack_speed_timer.0.finished);
}

#[test]
fn despawn_all_clears_hostiles() {
    let mut hostiles = vec![hostile(1, 5, Pos { x: 0, y: 0 })];
    despawn_all_hostiles(&mut hostiles);
    assert!(hostiles.is_empty());
}

#[test]
fn firing_needs_aim_and_a_ready_timer() {
    let mut timer = AttackSpeedTimer(Timer::new(500_000_000, TimerMode::Once));
    let speed = ProjectileSpeed(500_000);
    let at = Pos { x: 1, y: 2 };
    let right = Aim { left: false, right: true, up: false, down: false };
    assert!(spawn_projectile(right, at, &speed, &mut timer, Entity(5)).is_none());
    timer.0.tick(500_000_000);
    let none = Aim { left: false, right: false, up: false, down: false };
    assert!(spawn_projectile(none, at, &speed, &mut timer, Entity(5)).is_none());
    let up_left = Aim { left: true, right: false, up: true, down: false };
    let (p, ev) = spawn_projectile(up_left, at, &speed, &mut timer, Entity(5)).unwrap();
    assert_eq!(ev, ShootEvent());
    assert_eq!(p.velocity, Vel { x: -500_000, y: 500_000 });
    assert_eq!(p.position, at);
    assert_eq!(p.last_hit, None);
    assert!(!timer.0.finished());
    assert!(spawn_projectile(up_left, at, &speed, &mut timer, Entity(6)).is_none());
}

#[test]
fn projectiles_beyond_range_are_removed() {
    let mut near = projectile(1, None);
    near.position = Pos { x: 600_000, y: 0 };
    let mut edge = projectile(2, None);
    edge.position = Pos { x: 480_000, y: 640_000 };
    let mut far = projectile(3, None);
    far.position = Pos { x: 480_001, y: 640_000 };
    let mut projectiles = vec![near, edge, far];
    despawn_dead_projectiles(&mut projectiles, Pos { x: 0, y: 0 }, &AttackRange(800_000));
    let ids: Vec<u64> = projectiles.iter().map(|p| p.entity.0).collect();
    assert_eq!(ids, vec![1, 2]);
}

#[test]
fn projectile_speed_keeps_direction() {
    let mut p = projectile(1, None);
    p.velocity = Vel { x: 30, y: -40 };
    let mut projectiles = vec![p];
    update_projectile_speed(&mut projectiles, &ProjectileSpeed(500_000));
    assert_eq!(projectiles[0].velocity, Vel { x: 300_000, y: -400_000 });
}

#[test]
fn bounce_keeps_projectile_speed() {
    let mut rng = GlobalRng::with_seed(13);
    let mut hostiles = vec![hostile(10, 100, Pos { x: 0, y: 0 })];
    let mut projectiles = vec![projectile(1, Some(Entity(10)))];
    let mut next = 100u64;
    let events = vec![ProjectileEvent { projectile: Entity(1), target: Entity(10) }];
    handle_collision(
        &events, &mut projectiles, &mut hostiles, &mut next, &Damage(35), &DupChance(0),
        &ProjectileSpeed(500_000), &mut rng,
    );
    assert_eq!(hostiles[0].attributes.health.0, 100);
    assert_eq!(projectiles.len(), 1);
    let v = projectiles[0].velocity;
    let len = v.x * v.x + v.y * v.y;
    assert!(len <= 500_001 * 500_001 && len >= 499_998 * 499_998, "length squared {len}");
}

#[test]
fn duplication_follows_the_draw() {
    let dup = Vel { x: 3, y: 4 };
    let bounce = Vel { x: -1, y: 0 };
    let r = hit_roll(99, &DupChance(100), dup, bounce);
    assert_eq!(r.duplicate, Some(dup));
    assert_eq!(r.bounce, bounce);
    assert_eq!(hit_roll(100, &DupChance(100), dup, bounce).duplicate, None);
    assert_eq!(hit_roll(0, &DupChance(0), dup, bounce).duplicate, None);
    assert_eq!(hit_roll(999, &DupChance(1_000), dup, bounce).duplicate, Some(dup));
}
