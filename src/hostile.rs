use bevy_turborand::GlobalRng;
use vstd::prelude::*;

use crate::attribute::{insert_common, common_attributes, Attributes, Health, Timer};
use crate::geometry::{abs, clamp, scale_to, scaled_to, Pos, Vel};
use crate::loot;
use crate::rng::random_in;
use crate::{contains_entity, Entity};

verus! {

/// Interval between two hostile spawns, in nanoseconds.
#[derive(Clone, Copy, Debug, PartialEq, Eq, Structural)]
pub struct SpawnRate(pub u64);

/// Repeating countdown whose every lapse spawns one hostile.
#[derive(Clone, Copy, Debug, PartialEq, Eq, Structural)]
pub struct SpawnTimer(pub Timer);

/// Points earned by killing hostiles.
#[derive(Clone, Copy, Debug, PartialEq, Eq, Structural)]
pub struct Score(pub u128);

/// A hostile: where it is, how it moves, and its attributes.
#[derive(Clone, Copy, Debug, PartialEq, Eq, Structural)]
pub struct Hostile {
    pub entity: Entity,
    pub position: Pos,
    pub velocity: Vel,
    pub attributes: Attributes,
}

/// A hostile died at this position.
#[derive(Clone, Copy, Debug, PartialEq, Eq, Structural)]
pub struct EnemyDeathEvent(pub Pos);

/// Spawn interval at score zero: three seconds.
pub const BASE_SPAWN_INTERVAL: u64 = 3_000_000_000;

/// Score that halves the spawn interval: `k = 1 / SCORE_SCALE` in `base / (1 + k * score)`.
pub const SCORE_SCALE: u64 = 500;

/// Shortest spawn interval, which the curve approaches but never passes: one millisecond.
pub const MIN_SPAWN_INTERVAL: u64 = 1_000_000;

/// Distance from the player at which hostiles appear: a thousand pixels.
pub const SPAWN_RADIUS: i64 = 1_000_000;

/// Speed at which hostiles pursue the player: a hundred pixels per second.
pub const PURSUIT_SPEED: i64 = 100_000;

/// Score for each kill.
pub const KILL_SCORE: u128 = 10;

/// The spawn interval at a score: `base / (1 + score / SCORE_SCALE)`, never below
/// `MIN_SPAWN_INTERVAL`.
pub open spec fn spawn_interval(score: int) -> int {
    let v = (BASE_SPAWN_INTERVAL * SCORE_SCALE) as int / (SCORE_SCALE + score);
    if v < MIN_SPAWN_INTERVAL {
        MIN_SPAWN_INTERVAL as int
    } else {
        v
    }
}

/// Recomputes the spawn rate from the score, only when the score has changed.
pub fn increase_difficulty(spawn_rate: &mut SpawnRate, score: &Score, score_changed: bool)
    ensures
        final(spawn_rate).0 == if score_changed {
            spawn_interval(score.0 as int)
        } else {
            old(spawn_rate).0 as int
        },
{
    if !score_changed {
        return;
    }
    let numerator: u128 = BASE_SPAWN_INTERVAL as u128 * SCORE_SCALE as u128;
    let v: u128 = if score.0 > u128::MAX - SCORE_SCALE as u128 {
        proof {
            assert((BASE_SPAWN_INTERVAL * SCORE_SCALE) as int / (SCORE_SCALE + score.0) == 0)
                by (nonlinear_arith)
                requires
                    SCORE_SCALE + score.0 > BASE_SPAWN_INTERVAL * SCORE_SCALE,
            ;
        }
        0
    } else {
        let d: u128 = score.0 + SCORE_SCALE as u128;
        let q: u128 = numerator / d;
        assert(q <= numerator) by (nonlinear_arith)
            requires
                d >= 1,
                q == numerator / d,
        ;
        q
    };
    assert(v <= numerator);
    let interval: u64 = if v < MIN_SPAWN_INTERVAL as u128 {
        MIN_SPAWN_INTERVAL
    } else {
        v as u64
    };
    spawn_rate.0 = interval;
}

/// The spawn interval only shrinks as the score grows, and never reaches zero.
pub proof fn lemma_spawn_interval_monotone(low: u128, high: u128)
    requires
        low <= high,
    ensures
        spawn_interval(high as int) <= spawn_interval(low as int),
        spawn_interval(high as int) > 0,
{
    let n = (BASE_SPAWN_INTERVAL * SCORE_SCALE) as int;
    assert(n / (SCORE_SCALE + high) <= n / (SCORE_SCALE + low)) by (nonlinear_arith)
        requires
            n >= 0,
            0 < SCORE_SCALE + low <= SCORE_SCALE + high,
    ;
}

/// Carries a new spawn rate over to the spawn timer, keeping its progress.
pub fn update_spawn_timer(timer: &mut SpawnTimer, rate: &SpawnRate, rate_changed: bool)
    ensures
        final(timer).0 == if rate_changed {
            Timer { duration: rate.0, ..old(timer).0 }
        } else {
            old(timer).0
        },
{
    if !rate_changed {
        return;
    }
    timer.0.set_duration(rate.0);
}

/// Most attempts at drawing a direction before falling back to a fixed one.
pub const DIRECTION_ATTEMPTS: u32 = 16;

/// Half the side of the square from which direction samples are drawn.
pub const DIRECTION_SAMPLE_SPAN: i64 = 1000;

/// A vector of length `magnitude` pointing along the sample `(x, y)`: along a
/// sample inside the disc, which makes every angle equally likely, and along the
/// x axis when no such sample came.
pub open spec fn direction_of(x: int, y: int, magnitude: int) -> (int, int) {
    if x == 0 && y == 0 {
        scaled_to(1, 0, magnitude)
    } else {
        scaled_to(x, y, magnitude)
    }
}

/// Whether the sample `(x, y)` is kept: a point of the disc of radius
/// `DIRECTION_SAMPLE_SPAN` other than its centre.
pub open spec fn in_sample_disc(x: int, y: int) -> bool {
    0 < x * x + y * y <= DIRECTION_SAMPLE_SPAN * DIRECTION_SAMPLE_SPAN
}

/// Tests a drawn pair for `in_sample_disc`.
pub fn accepts_sample(x: i64, y: i64) -> (r: bool)
    requires
        -DIRECTION_SAMPLE_SPAN <= x <= DIRECTION_SAMPLE_SPAN,
        -DIRECTION_SAMPLE_SPAN <= y <= DIRECTION_SAMPLE_SPAN,
    ensures
        r == in_sample_disc(x as int, y as int),
{
    assert(x * x <= 1_000_000 && y * y <= 1_000_000 && x * x >= 0 && y * y >= 0)
        by (nonlinear_arith)
        requires
            -1000 <= x <= 1000,
            -1000 <= y <= 1000,
    ;
    let sq: i64 = x * x + y * y;
    sq > 0 && sq <= DIRECTION_SAMPLE_SPAN * DIRECTION_SAMPLE_SPAN
}

/// Draws a sample whose direction is uniform over the circle: a point of the disc
/// of radius `DIRECTION_SAMPLE_SPAN` other than its centre, or `(0, 0)` when
/// `DIRECTION_ATTEMPTS` draws all missed.
pub fn direction_sample(rng: &mut GlobalRng) -> (r: (i64, i64))
    ensures
        -DIRECTION_SAMPLE_SPAN <= r.0 <= DIRECTION_SAMPLE_SPAN,
        -DIRECTION_SAMPLE_SPAN <= r.1 <= DIRECTION_SAMPLE_SPAN,
        r.0 * r.0 + r.1 * r.1 <= DIRECTION_SAMPLE_SPAN * DIRECTION_SAMPLE_SPAN,
        in_sample_disc(r.0 as int, r.1 as int) || (r.0 == 0 && r.1 == 0),
{
    let mut attempt: u32 = 0;
    let mut x: i64 = 0;
    let mut y: i64 = 0;
    while attempt < DIRECTION_ATTEMPTS
        invariant
            -DIRECTION_SAMPLE_SPAN <= x <= DIRECTION_SAMPLE_SPAN,
            -DIRECTION_SAMPLE_SPAN <= y <= DIRECTION_SAMPLE_SPAN,
            in_sample_disc(x as int, y as int) || (x == 0 && y == 0),
        decreases DIRECTION_ATTEMPTS - attempt,
    {
        let sx = random_in(rng, -DIRECTION_SAMPLE_SPAN, DIRECTION_SAMPLE_SPAN);
        let sy = random_in(rng, -DIRECTION_SAMPLE_SPAN, DIRECTION_SAMPLE_SPAN);
        if accepts_sample(sx, sy) {
            x = sx;
            y = sy;
            break;
        }
        attempt = attempt + 1;
    }
    if x == 0 && y == 0 {
        assert(x * x + y * y == 0) by (nonlinear_arith)
            requires
                x == 0,
                y == 0,
        ;
    }
    (x, y)
}

/// `v` points along some sample at length `magnitude`.
pub open spec fn is_direction(v: Vel, magnitude: int) -> bool {
    exists|x: int, y: int| (v.x as int, v.y as int) == #[trigger] direction_of(x, y, magnitude)
}

/// A random direction at length `magnitude`.
pub fn random_direction(rng: &mut GlobalRng, magnitude: i32) -> (r: Vel)
    ensures
        is_direction(r, magnitude as int),
        abs(r.x as int) <= abs(magnitude as int),
        abs(r.y as int) <= abs(magnitude as int),
{
    let (x, y) = direction_sample(rng);
    let r = direction_from(x, y, magnitude);
    assert((r.x as int, r.y as int) == direction_of(x as int, y as int, magnitude as int));
    r
}

/// The direction of the sample `(x, y)` at length `magnitude`.
pub fn direction_from(x: i64, y: i64, magnitude: i32) -> (r: Vel)
    requires
        -DIRECTION_SAMPLE_SPAN <= x <= DIRECTION_SAMPLE_SPAN,
        -DIRECTION_SAMPLE_SPAN <= y <= DIRECTION_SAMPLE_SPAN,
    ensures
        (r.x as int, r.y as int) == direction_of(x as int, y as int, magnitude as int),
        abs(r.x as int) <= abs(magnitude as int),
        abs(r.y as int) <= abs(magnitude as int),
{
    if x == 0 && y == 0 {
        scale_to(1, 0, magnitude as i64)
    } else {
        scale_to(x, y, magnitude as i64)
    }
}

/// `p` moved by `(dx, dy)`, stopping at the edges of the plane.
pub open spec fn offset_pos(p: Pos, dx: int, dy: int) -> Pos {
    Pos {
        x: clamp(p.x + dx, i32::MIN as int, i32::MAX as int) as i32,
        y: clamp(p.y + dy, i32::MIN as int, i32::MAX as int) as i32,
    }
}

pub fn offset(p: Pos, dx: i64, dy: i64) -> (r: Pos)
    requires
        abs(dx as int) <= 0x1_0000_0000,
        abs(dy as int) <= 0x1_0000_0000,
    ensures
        r == offset_pos(p, dx as int, dy as int),
{
    let x: i64 = p.x as i64 + dx;
    let y: i64 = p.y as i64 + dy;
    Pos { x: clamp_i32(x), y: clamp_i32(y) }
}

fn clamp_i32(v: i64) -> (r: i32)
    ensures
        r as int == clamp(v as int, i32::MIN as int, i32::MAX as int),
{
    if v < i32::MIN as i64 {
        i32::MIN
    } else if v > i32::MAX as i64 {
        i32::MAX
    } else {
        v as i32
    }
}

/// A fresh hostile at `position`, at rest, with the baseline attributes.
pub open spec fn new_hostile(entity: Entity, position: Pos) -> Hostile {
    Hostile { entity, position, velocity: Vel { x: 0, y: 0 }, attributes: common_attributes() }
}

/// Where a hostile appears for the direction sample `(x, y)`.
pub open spec fn spawn_position(player: Pos, x: int, y: int) -> Pos {
    let d = direction_of(x, y, SPAWN_RADIUS as int);
    offset_pos(player, d.0, d.1)
}

/// A hostile with the baseline attributes, at `SPAWN_RADIUS` from the player along
/// the direction sample `(x, y)`.
pub fn spawn_at(player: Pos, x: i64, y: i64, entity: Entity) -> (r: Hostile)
    requires
        -DIRECTION_SAMPLE_SPAN <= x <= DIRECTION_SAMPLE_SPAN,
        -DIRECTION_SAMPLE_SPAN <= y <= DIRECTION_SAMPLE_SPAN,
    ensures
        r == new_hostile(entity, spawn_position(player, x as int, y as int)),
{
    let v = direction_from(x, y, SPAWN_RADIUS as i32);
    let position = offset(player, v.x, v.y);
    Hostile { entity, position, velocity: Vel { x: 0, y: 0 }, attributes: insert_common() }
}

/// Advances the spawn timer; when it lapses, a hostile with the baseline attributes
/// appears at `SPAWN_RADIUS` from the player in a random direction. At most one
/// hostile appears per tick.
pub fn spawn(
    timer: &mut SpawnTimer,
    delta: u64,
    rng: &mut GlobalRng,
    player: Pos,
    entity: Entity,
) -> (r: Option<Hostile>)
    ensures
        final(timer).0 == old(timer).0.ticked(delta),
        r is Some <==> final(timer).0.times_finished_this_tick > 0,
        r matches Some(h) ==> exists|x: int, y: int|
            h == new_hostile(entity, #[trigger] spawn_position(player, x, y)),
{
    timer.0.tick(delta);
    if !timer.0.just_finished() {
        return None;
    }
    let (x, y) = direction_sample(rng);
    Some(spawn_at(player, x, y, entity))
}

/// Velocity that takes a hostile at `from` straight toward `to` at `PURSUIT_SPEED`;
/// zero when the two coincide.
pub open spec fn pursuit(from: Pos, to: Pos) -> Vel {
    let v = scaled_to(to.x - from.x, to.y - from.y, PURSUIT_SPEED as int);
    Vel { x: v.0 as i64, y: v.1 as i64 }
}

/// Points every hostile at the player.
pub fn move_to_player(hostiles: &mut Vec<Hostile>, player: Pos)
    ensures
        final(hostiles)@.len() == old(hostiles)@.len(),
        forall|i: int|
            0 <= i < final(hostiles)@.len() ==> #[trigger] final(hostiles)@[i] == (Hostile {
                velocity: pursuit(old(hostiles)@[i].position, player),
                ..old(hostiles)@[i]
            }),
{
    let mut i: usize = 0;
    while i < hostiles.len()
        invariant
            0 <= i <= hostiles@.len(),
            hostiles@.len() == old(hostiles)@.len(),
            forall|j: int|
                0 <= j < i ==> #[trigger] hostiles@[j] == (Hostile {
                    velocity: pursuit(old(hostiles)@[j].position, player),
                    ..old(hostiles)@[j]
                }),
            forall|j: int| i <= j < hostiles@.len() ==> #[trigger] hostiles@[j] == old(hostiles)@[j],
        decreases hostiles@.len() - i,
    {
        let h = hostiles[i];
        let dx: i64 = player.x as i64 - h.position.x as i64;
        let dy: i64 = player.y as i64 - h.position.y as i64;
        let v = scale_to(dx, dy, PURSUIT_SPEED);
        hostiles.set(i, Hostile { velocity: v, ..h });
        i = i + 1;
    }
}

/// Health after a hit of `damage`: it never drops below zero.
pub open spec fn after_hit(health: i32, damage: i32) -> i32 {
    clamp(health - damage, 0, i32::MAX as int) as i32
}

pub fn take_hit(health: i32, damage: i32) -> (r: i32)
    ensures
        r == after_hit(health, damage),
{
    let v: i64 = health as i64 - damage as i64;
    if v < 0 {
        0
    } else if v > i32::MAX as i64 {
        i32::MAX
    } else {
        v as i32
    }
}

/// Whether a hostile strikes the player this tick: it touches the player and its
/// attack timer has run out.
pub open spec fn strikes(h: Hostile, touching: Seq<Entity>) -> bool {
    touching.contains(h.entity) && h.attributes.attack_speed_timer.0.finished
}

/// The hostile after its turn: a hostile that strikes starts its attack interval over.
pub open spec fn after_turn(h: Hostile, touching: Seq<Entity>) -> Hostile {
    if strikes(h, touching) {
        let t = h.attributes.attack_speed_timer.0;
        Hostile {
            attributes: Attributes {
                attack_speed_timer: crate::attribute::AttackSpeedTimer(
                    Timer { elapsed: 0, finished: false, times_finished_this_tick: 0, ..t },
                ),
                ..h.attributes
            },
            ..h
        }
    } else {
        h
    }
}

/// Player health after the hostiles in `hs` took their turns, in order.
pub open spec fn health_after_strikes(hs: Seq<Hostile>, touching: Seq<Entity>, health: i32) -> i32
    decreases hs.len(),
{
    if hs.len() == 0 {
        health
    } else {
        let before = health_after_strikes(hs.drop_last(), touching, health);
        if strikes(hs.last(), touching) {
            after_hit(before, hs.last().attributes.damage.0)
        } else {
            before
        }
    }
}

/// Hostiles in contact with the player strike it, each at most once per attack
/// interval.
pub fn attack_player(hostiles: &mut Vec<Hostile>, touching: &Vec<Entity>, health: &mut Health)
    ensures
        final(hostiles)@.len() == old(hostiles)@.len(),
        forall|i: int|
            0 <= i < final(hostiles)@.len() ==> #[trigger] final(hostiles)@[i] == after_turn(
                old(hostiles)@[i],
                touching@,
            ),
        final(health).0 == health_after_strikes(old(hostiles)@, touching@, old(health).0),
{
    let mut i: usize = 0;
    while i < hostiles.len()
        invariant
            0 <= i <= hostiles@.len(),
            hostiles@.len() == old(hostiles)@.len(),
            forall|j: int|
                0 <= j < i ==> #[trigger] hostiles@[j] == after_turn(old(hostiles)@[j], touching@),
            forall|j: int| i <= j < hostiles@.len() ==> #[trigger] hostiles@[j] == old(hostiles)@[j],
            health.0 == health_after_strikes(
                old(hostiles)@.subrange(0, i as int),
                touching@,
                old(health).0,
            ),
        decreases hostiles@.len() - i,
    {
        let h = hostiles[i];
        proof {
            assert(old(hostiles)@.subrange(0, i + 1).drop_last() == old(hostiles)@.subrange(
                0,
                i as int,
            ));
        }
        if contains_entity(touching, h.entity) && h.attributes.attack_speed_timer.0.finished() {
            health.0 = take_hit(health.0, h.attributes.damage.0);
            let mut attributes = h.attributes;
            attributes.attack_speed_timer.0.reset();
            hostiles.set(i, Hostile { attributes, ..h });
        }
        i = i + 1;
    }
    assert(old(hostiles)@.subrange(0, old(hostiles)@.len() as int) == old(hostiles)@);
}

/// Death threshold: a hostile dies once its health is zero or less.
pub open spec fn is_dead(h: Hostile) -> bool {
    h.attributes.health.0 <= 0
}

/// The hostiles of `hs` that are still alive, in order.
pub open spec fn survivors(hs: Seq<Hostile>) -> Seq<Hostile>
    decreases hs.len(),
{
    if hs.len() == 0 {
        hs
    } else if is_dead(hs.last()) {
        survivors(hs.drop_last())
    } else {
        survivors(hs.drop_last()).push(hs.last())
    }
}

/// Where the dead hostiles of `hs` lie, in order.
pub open spec fn death_positions(hs: Seq<Hostile>) -> Seq<Pos>
    decreases hs.len(),
{
    if hs.len() == 0 {
        Seq::empty()
    } else if is_dead(hs.last()) {
        death_positions(hs.drop_last()).push(hs.last().position)
    } else {
        death_positions(hs.drop_last())
    }
}

pub open spec fn score_after_kills(score: u128, kills: nat) -> u128 {
    if score + KILL_SCORE * kills > u128::MAX {
        u128::MAX
    } else {
        (score + KILL_SCORE * kills) as u128
    }
}

/// Removes the hostiles whose health is used up. Each death raises a death event
/// and a loot drop at the hostile's last position, and adds `KILL_SCORE` to the
/// score.
pub fn despawn_hostiles(hostiles: &mut Vec<Hostile>, score: &mut Score) -> (r: (
    Vec<EnemyDeathEvent>,
    Vec<loot::Event>,
))
    ensures
        final(hostiles)@ == survivors(old(hostiles)@),
        r.0@.len() == death_positions(old(hostiles)@).len(),
        r.1@.len() == death_positions(old(hostiles)@).len(),
        forall|i: int|
            0 <= i < r.0@.len() ==> #[trigger] r.0@[i] == EnemyDeathEvent(
                death_positions(old(hostiles)@)[i],
            ),
        forall|i: int|
            0 <= i < r.1@.len() ==> #[trigger] r.1@[i] == loot::Event(
                death_positions(old(hostiles)@)[i],
            ),
        final(score).0 == score_after_kills(old(score).0, death_positions(old(hostiles)@).len()),
{
    let mut kept: Vec<Hostile> = Vec::new();
    let mut deaths: Vec<EnemyDeathEvent> = Vec::new();
    let mut drops: Vec<loot::Event> = Vec::new();
    let mut i: usize = 0;
    while i < hostiles.len()
        invariant
            0 <= i <= hostiles@.len(),
            hostiles@ == old(hostiles)@,
            kept@ == survivors(hostiles@.subrange(0, i as int)),
            deaths@.len() == death_positions(hostiles@.subrange(0, i as int)).len(),
            drops@.len() == deaths@.len(),
            forall|j: int|
                0 <= j < deaths@.len() ==> #[trigger] deaths@[j] == EnemyDeathEvent(
                    death_positions(hostiles@.subrange(0, i as int))[j],
                ),
            forall|j: int|
                0 <= j < drops@.len() ==> #[trigger] drops@[j] == loot::Event(
                    death_positions(hostiles@.subrange(0, i as int))[j],
                ),
            score.0 == score_after_kills(old(score).0, deaths@.len()),
        decreases hostiles@.len() - i,
    {
        let h = hostiles[i];
        proof {
            assert(hostiles@.subrange(0, i + 1).drop_last() == hostiles@.subrange(0, i as int));
            assert(hostiles@.subrange(0, i + 1).last() == h);
        }
        if h.attributes.health.0 <= 0 {
            deaths.push(EnemyDeathEvent(h.position));
            drops.push(loot::Event(h.position));
            score.0 = score.0.saturating_add(KILL_SCORE);
        } else {
            kept.push(h);
        }
        i = i + 1;
    }
    assert(hostiles@.subrange(0, hostiles@.len() as int) == hostiles@);
    *hostiles = kept;
    (deaths, drops)
}

/// Removes every hostile, as when the player has died.
pub fn despawn_all_hostiles(hostiles: &mut Vec<Hostile>)
    ensures
        final(hostiles)@.len() == 0,
{
    hostiles.clear();
}

} // verus!
