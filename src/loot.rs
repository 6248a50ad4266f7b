use bevy_turborand::GlobalRng;
use vstd::prelude::*;

use crate::attribute::{Experience, Health};
use crate::geometry::{abs, div_toward_zero, div_trunc, scale_to, scaled_to, Pos, Vel, COMPONENT_LIMIT};
use crate::hostile::{is_direction, random_direction};
use crate::projectile::CHANCE_SCALE;
use crate::rng::random_in;
use crate::{contains_entity, Entity};

verus! {

/// A hostile died here and drops its loot.
#[derive(Clone, Copy, Debug, PartialEq, Eq, Structural)]
pub struct Event(pub Pos);

/// What a piece of loot gives when the player picks it up.
#[derive(Clone, Copy, Debug, PartialEq, Eq, Structural)]
pub enum Loot {
    Health,
    Experience,
}

/// A piece of loot lying or flying in the world.
#[derive(Clone, Copy, Debug, PartialEq, Eq, Structural)]
pub struct LootDrop {
    pub entity: Entity,
    pub kind: Loot,
    pub position: Pos,
    pub velocity: Vel,
}

/// Speed of loot scattering from a death, and of loot drawn to the player: a
/// thousand pixels per second.
pub const LOOT_SPEED: i32 = 1_000_000;

/// How fast loot velocity turns toward the player: three times the frame time,
/// as a fraction of one second.
pub const MAGNET_RATE: u64 = 3;

pub const NANOS_PER_SECOND: u64 = 1_000_000_000;

/// Fewest and most experience drops of one death.
pub const MIN_EXPERIENCE_DROPS: i64 = 10;
pub const MAX_EXPERIENCE_DROPS: i64 = 29;

/// Fewest and most health drops of one death, when health drops at all.
pub const MIN_HEALTH_DROPS: i64 = 1;
pub const MAX_HEALTH_DROPS: i64 = 19;

/// Number of pieces of `kind` among the loot of `ls` that the player touches.
pub open spec fn picked(ls: Seq<LootDrop>, touching: Seq<Entity>, kind: Loot) -> nat
    decreases ls.len(),
{
    if ls.len() == 0 {
        0
    } else {
        picked(ls.drop_last(), touching, kind) + if touching.contains(ls.last().entity)
            && ls.last().kind == kind {
            1nat
        } else {
            0nat
        }
    }
}

/// The loot of `ls` that the player does not touch, in order.
pub open spec fn left_lying(ls: Seq<LootDrop>, touching: Seq<Entity>) -> Seq<LootDrop>
    decreases ls.len(),
{
    if ls.len() == 0 {
        ls
    } else if touching.contains(ls.last().entity) {
        left_lying(ls.drop_last(), touching)
    } else {
        left_lying(ls.drop_last(), touching).push(ls.last())
    }
}

pub open spec fn saturating_u32(v: int) -> u32 {
    if v > u32::MAX {
        u32::MAX
    } else {
        v as u32
    }
}

pub open spec fn saturating_i32(v: int) -> i32 {
    if v > i32::MAX {
        i32::MAX
    } else {
        v as i32
    }
}

/// The player picks up the loot it touches: each piece of health loot adds one
/// health, each piece of experience loot one experience, and the piece is gone.
pub fn pickup_loot(
    loot: &mut Vec<LootDrop>,
    touching: &Vec<Entity>,
    experience: &mut Experience,
    health: &mut Health,
)
    requires
        old(health).0 >= 0,
    ensures
        final(loot)@ == left_lying(old(loot)@, touching@),
        final(experience).current == saturating_u32(
            old(experience).current + picked(old(loot)@, touching@, Loot::Experience),
        ),
        final(experience).cap == old(experience).cap,
        final(health).0 == saturating_i32(
            old(health).0 + picked(old(loot)@, touching@, Loot::Health),
        ),
{
    let mut kept: Vec<LootDrop> = Vec::new();
    let mut i: usize = 0;
    while i < loot.len()
        invariant
            0 <= i <= loot@.len(),
            loot@ == old(loot)@,
            old(health).0 >= 0,
            kept@ == left_lying(loot@.subrange(0, i as int), touching@),
            experience.current == saturating_u32(
                old(experience).current + picked(loot@.subrange(0, i as int), touching@, Loot::Experience),
            ),
            experience.cap == old(experience).cap,
            health.0 == saturating_i32(
                old(health).0 + picked(loot@.subrange(0, i as int), touching@, Loot::Health),
            ),
        decreases loot@.len() - i,
    {
        let l = loot[i];
        proof {
            assert(loot@.subrange(0, i + 1).drop_last() == loot@.subrange(0, i as int));
            assert(loot@.subrange(0, i + 1).last() == l);
        }
        if contains_entity(touching, l.entity) {
            match l.kind {
                Loot::Health => {
                    if health.0 < i32::MAX {
                        health.0 = health.0 + 1;
                    }
                },
                Loot::Experience => {
                    experience.current = experience.current.saturating_add(1);
                },
            }
        } else {
            kept.push(l);
        }
        i = i + 1;
    }
    assert(loot@.subrange(0, loot@.len() as int) == loot@);
    *loot = kept;
}

/// Share of the way from the old velocity to the target that one frame of `delta`
/// nanoseconds covers, in billionths; at most all of it.
pub open spec fn blend_of(delta: u64) -> int {
    if MAGNET_RATE * delta > NANOS_PER_SECOND {
        NANOS_PER_SECOND as int
    } else {
        MAGNET_RATE * delta
    }
}

/// The velocity of loot at `at` after one frame of pull toward `player`: it turns
/// from `v` toward `LOOT_SPEED` in the player's direction by `blend_of(delta)`.
pub open spec fn pulled(v: Vel, at: Pos, player: Pos, delta: u64) -> Vel {
    let t = scaled_to(player.x - at.x, player.y - at.y, LOOT_SPEED as int);
    let b = blend_of(delta);
    Vel {
        x: (v.x + div_trunc((t.0 - v.x) * b, NANOS_PER_SECOND as int)) as i64,
        y: (v.y + div_trunc((t.1 - v.y) * b, NANOS_PER_SECOND as int)) as i64,
    }
}

proof fn lemma_blend_step(v: int, t: int, b: int)
    requires
        abs(v) <= COMPONENT_LIMIT,
        abs(t) <= COMPONENT_LIMIT,
        0 <= b <= NANOS_PER_SECOND,
    ensures
        abs((t - v) * b) <= 2 * COMPONENT_LIMIT * NANOS_PER_SECOND,
        abs(v + div_trunc((t - v) * b, NANOS_PER_SECOND as int)) <= COMPONENT_LIMIT,
{
    let d = t - v;
    let n = NANOS_PER_SECOND as int;
    assert(abs(d * b) <= abs(d) * n) by (nonlinear_arith)
        requires
            0 <= b <= n,
    ;
    assert(abs(d) * n <= 2 * COMPONENT_LIMIT * n) by (nonlinear_arith)
        requires
            abs(d) <= 2 * COMPONENT_LIMIT,
            n > 0,
    ;
    let q = div_trunc(d * b, n);
    if b == 0 {
        assert(d * b == 0);
    } else if d * b >= 0 {
        assert(d >= 0) by (nonlinear_arith)
            requires
                d * b >= 0,
                b > 0,
        ;
        assert(d * b <= n * d) by (nonlinear_arith)
            requires
                0 <= b <= n,
                d >= 0,
        ;
        vstd::arithmetic::div_mod::lemma_div_is_ordered(d * b, n * d, n);
        vstd::arithmetic::div_mod::lemma_div_multiples_vanish(d, n);
        assert(q >= 0) by (nonlinear_arith)
            requires
                q == (d * b) / n,
                d * b >= 0,
                n > 0,
        ;
    } else {
        assert(d < 0) by (nonlinear_arith)
            requires
                d * b < 0,
                b >= 0,
        ;
        assert(-(d * b) <= -d * n) by (nonlinear_arith)
            requires
                d < 0,
                0 <= b <= n,
        ;
        assert((-(d * b)) / n <= -d) by (nonlinear_arith)
            requires
                -(d * b) <= -d * n,
                n > 0,
        ;
        assert((-(d * b)) / n >= 0) by (nonlinear_arith)
            requires
                -(d * b) > 0,
                n > 0,
        ;
    }
}

/// Draws every piece of loot toward the player.
pub fn move_loot_to_player(loot: &mut Vec<LootDrop>, player: Pos, delta: u64)
    requires
        forall|i: int|
            0 <= i < old(loot)@.len() ==> abs(#[trigger] old(loot)@[i].velocity.x as int)
                <= COMPONENT_LIMIT && abs(old(loot)@[i].velocity.y as int) <= COMPONENT_LIMIT,
    ensures
        final(loot)@.len() == old(loot)@.len(),
        forall|i: int|
            0 <= i < final(loot)@.len() ==> {
                let l = #[trigger] old(loot)@[i];
                final(loot)@[i] == LootDrop { velocity: pulled(l.velocity, l.position, player, delta), ..l }
            },
        forall|i: int|
            0 <= i < final(loot)@.len() ==> abs(#[trigger] final(loot)@[i].velocity.x as int)
                <= COMPONENT_LIMIT && abs(final(loot)@[i].velocity.y as int) <= COMPONENT_LIMIT,
{
    let blend: i128 = if delta > NANOS_PER_SECOND / MAGNET_RATE {
        NANOS_PER_SECOND as i128
    } else {
        (MAGNET_RATE * delta) as i128
    };
    assert(blend == blend_of(delta));
    let mut i: usize = 0;
    while i < loot.len()
        invariant
            0 <= i <= loot@.len(),
            blend == blend_of(delta),
            loot@.len() == old(loot)@.len(),
            forall|j: int| i <= j < loot@.len() ==> #[trigger] loot@[j] == old(loot)@[j],
            forall|j: int|
                0 <= j < old(loot)@.len() ==> abs(#[trigger] old(loot)@[j].velocity.x as int)
                    <= COMPONENT_LIMIT && abs(old(loot)@[j].velocity.y as int) <= COMPONENT_LIMIT,
            forall|j: int|
                0 <= j < i ==> {
                    let l = #[trigger] old(loot)@[j];
                    loot@[j] == LootDrop { velocity: pulled(l.velocity, l.position, player, delta), ..l }
                },
            forall|j: int|
                0 <= j < i ==> abs(#[trigger] loot@[j].velocity.x as int) <= COMPONENT_LIMIT && abs(
                    loot@[j].velocity.y as int,
                ) <= COMPONENT_LIMIT,
        decreases loot@.len() - i,
    {
        let l = loot[i];
        assert(l == old(loot)@[i as int]);
        let dx: i64 = player.x as i64 - l.position.x as i64;
        let dy: i64 = player.y as i64 - l.position.y as i64;
        let t = scale_to(dx, dy, LOOT_SPEED as i64);
        proof {
            lemma_blend_step(l.velocity.x as int, t.x as int, blend as int);
            lemma_blend_step(l.velocity.y as int, t.y as int, blend as int);
        }
        let vx: i128 = l.velocity.x as i128;
        let vy: i128 = l.velocity.y as i128;
        let x = vx + div_toward_zero((t.x as i128 - vx) * blend, NANOS_PER_SECOND as i128);
        let y = vy + div_toward_zero((t.y as i128 - vy) * blend, NANOS_PER_SECOND as i128);
        loot.set(i, LootDrop { velocity: Vel { x: x as i64, y: y as i64 }, ..l });
        i = i + 1;
    }
}

/// Whether `l` is piece number `entity` of kind `kind`, lying at `position` and
/// flying off along a direction sample at `LOOT_SPEED`.
pub open spec fn scattered_piece(l: LootDrop, kind: Loot, position: Pos, entity: int) -> bool {
    &&& l.entity == Entity(entity as u64)
    &&& l.kind == kind
    &&& l.position == position
    &&& is_direction(l.velocity, LOOT_SPEED as int)
    &&& abs(l.velocity.x as int) <= LOOT_SPEED
    &&& abs(l.velocity.y as int) <= LOOT_SPEED
}

/// Kind of the `i`-th piece of a death's loot whose first `experience` pieces are
/// experience.
pub open spec fn kind_at(i: int, experience: int) -> Loot {
    if i < experience {
        Loot::Experience
    } else {
        Loot::Health
    }
}

/// Number of health pieces of a death whose heal roll came out `heal_draw`: the
/// drawn `healing` when the roll is below `heal_chance`, none otherwise.
pub open spec fn health_count(heal_draw: int, heal_chance: int, healing: int) -> int {
    if heal_draw < heal_chance {
        healing
    } else {
        0
    }
}

/// Piece `i` of the loot of a death at `position` whose first `experience` pieces are
/// experience, numbered from `first`, flying off with `directions[i]`.
pub open spec fn death_piece(
    position: Pos,
    experience: int,
    first: int,
    directions: Seq<Vel>,
    i: int,
) -> LootDrop {
    LootDrop {
        entity: Entity((first + i) as u64),
        kind: kind_at(i, experience),
        position,
        velocity: directions[i],
    }
}

/// Whether `block` is the loot of one death at `position`, numbered from `first`,
/// whose heal roll came out `heal_draw` (in `0..CHANCE_SCALE`): `experience` pieces
/// of experience, between `MIN_EXPERIENCE_DROPS` and `MAX_EXPERIENCE_DROPS`, then
/// between `MIN_HEALTH_DROPS` and `MAX_HEALTH_DROPS` pieces of health exactly when
/// `heal_draw < heal_chance`, and none otherwise.
pub open spec fn death_drops(
    block: Seq<LootDrop>,
    position: Pos,
    heal_chance: int,
    first: int,
    experience: int,
    heal_draw: int,
) -> bool {
    let healing = block.len() - experience;
    &&& MIN_EXPERIENCE_DROPS <= experience <= MAX_EXPERIENCE_DROPS
    &&& 0 <= heal_draw < CHANCE_SCALE
    &&& heal_draw < heal_chance ==> MIN_HEALTH_DROPS <= healing <= MAX_HEALTH_DROPS
    &&& heal_draw >= heal_chance ==> healing == 0
    &&& forall|i: int|
        0 <= i < block.len() ==> #[trigger] scattered_piece(
            block[i],
            kind_at(i, experience),
            position,
            first + i,
        )
}

/// Whether the `i`-th death of `events` dropped the pieces `drops[ends[i]..ends[i + 1]]`,
/// the first `splits[i]` of them experience, with heal roll `draws[i]`.
pub open spec fn block_of(
    drops: Seq<LootDrop>,
    events: Seq<Event>,
    heal_chance: int,
    first: int,
    ends: Seq<int>,
    splits: Seq<int>,
    draws: Seq<int>,
    i: int,
) -> bool {
    &&& 0 <= ends[i] <= ends[i + 1] <= drops.len()
    &&& death_drops(
        drops.subrange(ends[i], ends[i + 1]),
        events[i].0,
        heal_chance,
        first + ends[i],
        splits[i],
        draws[i],
    )
}

/// Whether `drops` is, death after death, the loot of `events`, cut into blocks at
/// `ends`.
pub open spec fn loot_of_deaths(
    drops: Seq<LootDrop>,
    events: Seq<Event>,
    heal_chance: int,
    first: int,
    ends: Seq<int>,
    splits: Seq<int>,
    draws: Seq<int>,
) -> bool {
    &&& ends.len() == events.len() + 1
    &&& splits.len() == events.len()
    &&& draws.len() == events.len()
    &&& ends[0] == 0
    &&& ends[events.len() as int] == drops.len()
    &&& forall|i: int|
        0 <= i < events.len() ==> #[trigger] block_of(
            drops,
            events,
            heal_chance,
            first,
            ends,
            splits,
            draws,
            i,
        )
}

/// Appends the loot of one death at `position`, given its draws: `experience`
/// pieces of experience, then `health_count(heal_draw, heal_chance, healing)`
/// pieces of health, piece `i` flying off with `directions[i]`, numbered from
/// `next_entity` on.
pub fn loot_of_death(
    out: &mut Vec<LootDrop>,
    position: Pos,
    experience: i64,
    heal_draw: i64,
    heal_chance: i32,
    healing: i64,
    directions: &Vec<Vel>,
    next_entity: &mut u64,
)
    requires
        0 <= experience,
        0 <= healing,
        directions@.len() == experience + health_count(
            heal_draw as int,
            heal_chance as int,
            healing as int,
        ),
        old(next_entity) + directions@.len() <= u64::MAX,
    ensures
        final(out)@.len() == old(out)@.len() + directions@.len(),
        final(out)@.subrange(0, old(out)@.len() as int) == old(out)@,
        *final(next_entity) == *old(next_entity) + directions@.len(),
        forall|i: int|
            0 <= i < directions@.len() ==> #[trigger] final(out)@[old(out)@.len() + i]
                == death_piece(position, experience as int, *old(next_entity) as int, directions@, i),
{
    let mut i: usize = 0;
    while i < directions.len()
        invariant
            0 <= i <= directions@.len(),
            0 <= experience,
            out@.len() == old(out)@.len() + i,
            *next_entity == *old(next_entity) + i,
            *old(next_entity) + directions@.len() <= u64::MAX,
            out@.subrange(0, old(out)@.len() as int) == old(out)@,
            forall|j: int|
                0 <= j < i ==> #[trigger] out@[old(out)@.len() + j] == death_piece(
                    position,
                    experience as int,
                    *old(next_entity) as int,
                    directions@,
                    j,
                ),
        decreases directions@.len() - i,
    {
        let kind = if (i as i128) < (experience as i128) {
            Loot::Experience
        } else {
            Loot::Health
        };
        let ghost before = out@;
        out.push(LootDrop { entity: Entity(*next_entity), kind, position, velocity: directions[i] });
        proof {
            assert(out@.subrange(0, old(out)@.len() as int) =~= before.subrange(
                0,
                old(out)@.len() as int,
            ));
            assert forall|j: int| 0 <= j < i + 1 implies #[trigger] out@[old(out)@.len() + j]
                == death_piece(position, experience as int, *old(next_entity) as int, directions@, j) by {
                if j < i {
                    assert(out@[old(out)@.len() + j] == before[old(out)@.len() + j]);
                }
            }
        }
        *next_entity = *next_entity + 1;
        i = i + 1;
    }
}

/// Draws `count` directions at `LOOT_SPEED`.
fn draw_directions(rng: &mut GlobalRng, count: i64) -> (r: Vec<Vel>)
    requires
        0 <= count,
    ensures
        r@.len() == count,
        forall|i: int|
            0 <= i < r@.len() ==> is_direction(#[trigger] r@[i], LOOT_SPEED as int) && abs(
                r@[i].x as int,
            ) <= LOOT_SPEED && abs(r@[i].y as int) <= LOOT_SPEED,
{
    let mut r: Vec<Vel> = Vec::new();
    let mut k: i64 = 0;
    while k < count
        invariant
            0 <= k <= count,
            r@.len() == k,
            forall|i: int|
                0 <= i < r@.len() ==> is_direction(#[trigger] r@[i], LOOT_SPEED as int) && abs(
                    r@[i].x as int,
                ) <= LOOT_SPEED && abs(r@[i].y as int) <= LOOT_SPEED,
        decreases count - k,
    {
        r.push(random_direction(rng, LOOT_SPEED));
        k = k + 1;
    }
    r
}

/// Scatters the loot of each death, death after death: between
/// `MIN_EXPERIENCE_DROPS` and `MAX_EXPERIENCE_DROPS` pieces of experience, then,
/// exactly when a roll in `0..CHANCE_SCALE` comes out below `heal_chance`, between
/// `MIN_HEALTH_DROPS` and `MAX_HEALTH_DROPS` pieces of health. Every piece lies at
/// its death's position and flies off at `LOOT_SPEED`; the pieces are numbered
/// from `next_entity` on. `loot_of_death` states the loot for given draws.
pub fn drop_loot(
    events: &Vec<Event>,
    heal_chance: i32,
    rng: &mut GlobalRng,
    next_entity: &mut u64,
) -> (r: Vec<LootDrop>)
    requires
        old(next_entity) + (MAX_EXPERIENCE_DROPS + MAX_HEALTH_DROPS) * events@.len() <= u64::MAX,
    ensures
        *final(next_entity) == *old(next_entity) + r@.len(),
        exists|ends: Seq<int>, splits: Seq<int>, draws: Seq<int>|
            #[trigger] loot_of_deaths(
                r@,
                events@,
                heal_chance as int,
                *old(next_entity) as int,
                ends,
                splits,
                draws,
            ),
{
    let mut out: Vec<LootDrop> = Vec::new();
    let ghost first = *old(next_entity) as int;
    let ghost mut ends: Seq<int> = seq![0int];
    let ghost mut splits: Seq<int> = Seq::empty();
    let ghost mut draws: Seq<int> = Seq::empty();
    let mut i: usize = 0;
    while i < events.len()
        invariant
            0 <= i <= events@.len(),
            out@.len() <= (MAX_EXPERIENCE_DROPS + MAX_HEALTH_DROPS) * i,
            *next_entity == first + out@.len(),
            first == *old(next_entity),
            first + (MAX_EXPERIENCE_DROPS + MAX_HEALTH_DROPS) * events@.len() <= u64::MAX,
            loot_of_deaths(
                out@,
                events@.subrange(0, i as int),
                heal_chance as int,
                first,
                ends,
                splits,
                draws,
            ),
        decreases events@.len() - i,
    {
        let position = events[i].0;
        let ghost before = out@;
        proof {
            let m = (MAX_EXPERIENCE_DROPS + MAX_HEALTH_DROPS) as int;
            let ii = i as int;
            assert(m * ii + m <= m * events@.len()) by (nonlinear_arith)
                requires
                    ii < events@.len(),
                    m > 0,
            ;
            assert(m * (ii + 1) == m * ii + m) by (nonlinear_arith);
        }
        let experience = random_in(rng, MIN_EXPERIENCE_DROPS, MAX_EXPERIENCE_DROPS);
        let heal_draw = random_in(rng, 0, CHANCE_SCALE - 1);
        let healing = if heal_draw < heal_chance as i64 {
            random_in(rng, MIN_HEALTH_DROPS, MAX_HEALTH_DROPS)
        } else {
            0
        };
        let directions = draw_directions(rng, experience + healing);
        loot_of_death(
            &mut out,
            position,
            experience,
            heal_draw,
            heal_chance,
            healing,
            &directions,
            next_entity,
        );
        proof {
            let start = before.len() as int;
            let block = out@.subrange(start, out@.len() as int);
            assert forall|j: int| 0 <= j < block.len() implies #[trigger] scattered_piece(
                block[j],
                kind_at(j, experience as int),
                position,
                first + start + j,
            ) by {
                assert(block[j] == out@[start + j]);
                assert(out@[start + j] == death_piece(
                    position,
                    experience as int,
                    first + start,
                    directions@,
                    j,
                ));
                assert(is_direction(directions@[j], LOOT_SPEED as int));
            }
            assert(death_drops(
                block,
                position,
                heal_chance as int,
                first + start,
                experience as int,
                heal_draw as int,
            ));
            let old_ends = ends;
            let old_splits = splits;
            let old_draws = draws;
            ends = ends.push(out@.len() as int);
            splits = splits.push(experience as int);
            draws = draws.push(heal_draw as int);
            let evs = events@.subrange(0, i + 1);
            assert forall|k: int| 0 <= k < evs.len() implies #[trigger] block_of(
                out@,
                evs,
                heal_chance as int,
                first,
                ends,
                splits,
                draws,
                k,
            ) by {
                if k < i {
                    assert(block_of(
                        before,
                        events@.subrange(0, i as int),
                        heal_chance as int,
                        first,
                        old_ends,
                        old_splits,
                        old_draws,
                        k,
                    ));
                    assert(ends[k] == old_ends[k] && ends[k + 1] == old_ends[k + 1]);
                    assert(out@.subrange(ends[k], ends[k + 1]) =~= before.subrange(
                        ends[k],
                        ends[k + 1],
                    )) by {
                        assert forall|t: int| 0 <= t < ends[k + 1] - ends[k] implies #[trigger] out@[ends[k]
                            + t] == before[ends[k] + t] by {
                            assert(out@.subrange(0, start)[ends[k] + t] == before[ends[k] + t]);
                        }
                    }
                } else {
                    assert(ends[k] == start);
                }
            }
        }
        i = i + 1;
    }
    proof {
        assert(events@.subrange(0, events@.len() as int) == events@);
    }
    out
}

} // verus!
