use bevy_turborand::GlobalRng;
use vstd::prelude::*;

use crate::attribute::{AttackRange, AttackSpeedTimer, Damage, DupChance, Timer};
use crate::geometry::{abs, distance_sq, farther_than, scale_to, scaled_to, Pos, Vel, COMPONENT_LIMIT};
use crate::hostile::{after_hit, is_direction, random_direction, take_hit, Hostile};
use crate::rng::random_in;
use crate::{contains_entity, Entity};

verus! {

/// Launch speed of projectiles, in thousandths of a pixel per second.
#[derive(Clone, Copy, Debug, PartialEq, Eq, Structural)]
pub struct ProjectileSpeed(pub i32);

/// A projectile in flight. `last_hit` names the hostile that a duplicate was split
/// off from, which it bounces off instead of hurting.
#[derive(Clone, Copy, Debug, PartialEq, Eq, Structural)]
pub struct Projectile {
    pub entity: Entity,
    pub position: Pos,
    pub velocity: Vel,
    pub last_hit: Option<Entity>,
}

/// A projectile touched a hostile.
#[derive(Clone, Copy, Debug, PartialEq, Eq, Structural)]
pub struct ProjectileEvent {
    pub projectile: Entity,
    pub target: Entity,
}

/// The player fired.
#[derive(Clone, Copy, Debug, PartialEq, Eq, Structural)]
pub struct ShootEvent();

/// A notification from collision detection, for an unordered pair of entities.
#[derive(Clone, Copy, Debug, PartialEq, Eq, Structural)]
pub enum CollisionEvent {
    Started(Entity, Entity),
    Stopped(Entity, Entity),
}

/// Denominator of `DupChance`: chances are in thousandths.
pub const CHANCE_SCALE: i64 = 1000;

/// The damage request that a collision notification yields, if any: only a contact
/// that starts between a projectile and a hostile, in either order, counts.
pub open spec fn hit_of(
    e: CollisionEvent,
    projectiles: Seq<Entity>,
    hostiles: Seq<Entity>,
) -> Option<ProjectileEvent> {
    match e {
        CollisionEvent::Started(a, b) => if projectiles.contains(a) {
            if hostiles.contains(b) {
                Some(ProjectileEvent { projectile: a, target: b })
            } else {
                None
            }
        } else if projectiles.contains(b) && hostiles.contains(a) {
            Some(ProjectileEvent { projectile: b, target: a })
        } else {
            None
        },
        CollisionEvent::Stopped(_, _) => None,
    }
}

/// The damage requests of a stream of notifications, in order.
pub open spec fn hits_of(
    events: Seq<CollisionEvent>,
    projectiles: Seq<Entity>,
    hostiles: Seq<Entity>,
) -> Seq<ProjectileEvent>
    decreases events.len(),
{
    if events.len() == 0 {
        Seq::empty()
    } else {
        let before = hits_of(events.drop_last(), projectiles, hostiles);
        match hit_of(events.last(), projectiles, hostiles) {
            Some(h) => before.push(h),
            None => before,
        }
    }
}

/// Keeps the notifications of a projectile touching a hostile, one damage request
/// for each.
pub fn detect_collisions(
    collision_events: &Vec<CollisionEvent>,
    projectiles: &Vec<Entity>,
    hostiles: &Vec<Entity>,
) -> (r: Vec<ProjectileEvent>)
    ensures
        r@ == hits_of(collision_events@, projectiles@, hostiles@),
{
    let mut r: Vec<ProjectileEvent> = Vec::new();
    let mut i: usize = 0;
    while i < collision_events.len()
        invariant
            0 <= i <= collision_events@.len(),
            r@ == hits_of(collision_events@.subrange(0, i as int), projectiles@, hostiles@),
        decreases collision_events@.len() - i,
    {
        let event = collision_events[i];
        proof {
            assert(collision_events@.subrange(0, i + 1).drop_last() == collision_events@.subrange(
                0,
                i as int,
            ));
        }
        match event {
            CollisionEvent::Started(a, b) => {
                if contains_entity(projectiles, a) {
                    if contains_entity(hostiles, b) {
                        r.push(ProjectileEvent { projectile: a, target: b });
                    }
                } else if contains_entity(projectiles, b) && contains_entity(hostiles, a) {
                    r.push(ProjectileEvent { projectile: b, target: a });
                }
            },
            CollisionEvent::Stopped(_, _) => {},
        }
        i = i + 1;
    }
    assert(collision_events@.subrange(0, collision_events@.len() as int) == collision_events@);
    r
}

/// The random outcomes that a hit depends on: the velocity of a duplicate, when the
/// duplication roll succeeded, and the new velocity of a bounce.
#[derive(Clone, Copy, Debug, PartialEq, Eq, Structural)]
pub struct HitRoll {
    pub duplicate: Option<Vel>,
    pub bounce: Vel,
}

/// What one hit of a projectile on a hostile comes to.
#[derive(Clone, Copy, Debug, PartialEq, Eq, Structural)]
pub struct HitOutcome {
    /// A duplicate split off at the point of impact.
    pub duplicate: Option<Projectile>,
    /// Whether the hostile takes damage.
    pub damaged: bool,
    /// The projectile itself, when it bounced off instead of being spent.
    pub survivor: Option<Projectile>,
}

/// A hit of `p` on `target`: a successful duplication roll splits off a duplicate
/// that will bounce off `target`; a projectile that was split off `target` bounces
/// off it unharmed; any other hit damages `target` once and spends the projectile.
pub open spec fn outcome(p: Projectile, target: Entity, roll: HitRoll, spawned: Entity) -> HitOutcome {
    let duplicate = match roll.duplicate {
        Some(v) => Some(
            Projectile { entity: spawned, position: p.position, velocity: v, last_hit: Some(target) },
        ),
        None => None,
    };
    if p.last_hit == Some(target) {
        HitOutcome { duplicate, damaged: false, survivor: Some(Projectile { velocity: roll.bounce, ..p }) }
    } else {
        HitOutcome { duplicate, damaged: true, survivor: None }
    }
}

pub fn resolve_hit(p: Projectile, target: Entity, roll: HitRoll, spawned: Entity) -> (r: HitOutcome)
    ensures
        r == outcome(p, target, roll, spawned),
{
    let duplicate = match roll.duplicate {
        Some(v) => Some(
            Projectile { entity: spawned, position: p.position, velocity: v, last_hit: Some(target) },
        ),
        None => None,
    };
    let bounces = match p.last_hit {
        Some(e) => e == target,
        None => false,
    };
    if bounces {
        HitOutcome { duplicate, damaged: false, survivor: Some(Projectile { velocity: roll.bounce, ..p }) }
    } else {
        HitOutcome { duplicate, damaged: true, survivor: None }
    }
}

/// A contact yields exactly one damage application, except that a projectile split
/// off the target bounces off it without damage and stays in flight; a successful
/// duplication roll adds exactly one projectile either way, and a projectile that
/// damages is spent.
pub proof fn lemma_single_resolution(p: Projectile, target: Entity, roll: HitRoll, spawned: Entity)
    ensures
        ({
            let o = outcome(p, target, roll, spawned);
            &&& o.damaged <==> p.last_hit != Some(target)
            &&& o.damaged ==> o.survivor is None
            &&& !o.damaged ==> o.survivor == Some(Projectile { velocity: roll.bounce, ..p })
            &&& o.duplicate is Some <==> roll.duplicate is Some
            &&& o.duplicate matches Some(d) ==> d.last_hit == Some(target) && d.position
                == p.position
        }),
{
}

/// Index of the first entry of `s` whose entity is `e`, if any.
pub open spec fn first_projectile(s: Seq<Projectile>, e: Entity) -> Option<int> {
    if exists|k: int| 0 <= k < s.len() && s[k].entity == e {
        Some(
            choose|k: int|
                0 <= k < s.len() && s[k].entity == e && forall|j: int|
                    0 <= j < k ==> s[j].entity != e,
        )
    } else {
        None
    }
}

/// Index of the first entry of `s` whose entity is `e`, if any.
pub open spec fn first_hostile(s: Seq<Hostile>, e: Entity) -> Option<int> {
    if exists|k: int| 0 <= k < s.len() && s[k].entity == e {
        Some(
            choose|k: int|
                0 <= k < s.len() && s[k].entity == e && forall|j: int|
                    0 <= j < k ==> s[j].entity != e,
        )
    } else {
        None
    }
}

fn find_projectile(s: &Vec<Projectile>, e: Entity) -> (r: Option<usize>)
    ensures
        r matches Some(k) ==> first_projectile(s@, e) == Some(k as int) && k < s@.len(),
        r is None ==> first_projectile(s@, e) is None,
{
    let mut i: usize = 0;
    while i < s.len()
        invariant
            0 <= i <= s@.len(),
            forall|j: int| 0 <= j < i ==> s@[j].entity != e,
        decreases s@.len() - i,
    {
        if s[i].entity == e {
            proof {
                let c = choose|k: int|
                    0 <= k < s@.len() && s@[k].entity == e && forall|j: int|
                        0 <= j < k ==> s@[j].entity != e;
                assert(0 <= c < s@.len() && s@[c].entity == e);
                if c < i {
                } else if c > i {
                    assert(s@[i as int].entity != e);
                }
            }
            return Some(i);
        }
        i = i + 1;
    }
    None
}

fn find_hostile(s: &Vec<Hostile>, e: Entity) -> (r: Option<usize>)
    ensures
        r matches Some(k) ==> first_hostile(s@, e) == Some(k as int) && k < s@.len(),
        r is None ==> first_hostile(s@, e) is None,
{
    let mut i: usize = 0;
    while i < s.len()
        invariant
            0 <= i <= s@.len(),
            forall|j: int| 0 <= j < i ==> s@[j].entity != e,
        decreases s@.len() - i,
    {
        if s[i].entity == e {
            proof {
                let c = choose|k: int|
                    0 <= k < s@.len() && s@[k].entity == e && forall|j: int|
                        0 <= j < k ==> s@[j].entity != e;
                assert(0 <= c < s@.len() && s@[c].entity == e);
                if c > i {
                    assert(s@[i as int].entity != e);
                }
            }
            return Some(i);
        }
        i = i + 1;
    }
    None
}

/// Projectiles and hostiles in play, and the next free entity number.
pub struct Battle {
    pub projectiles: Seq<Projectile>,
    pub hostiles: Seq<Hostile>,
    pub next_entity: int,
}

/// The battle after one damage request, given its random outcomes. A request whose
/// projectile is gone changes nothing; a request whose target is gone still spends
/// the projectile.
pub open spec fn battle_after_hit(b: Battle, e: ProjectileEvent, roll: HitRoll, damage: i32) -> Battle {
    match first_projectile(b.projectiles, e.projectile) {
        None => b,
        Some(k) => {
            let o = outcome(b.projectiles[k], e.target, roll, Entity(b.next_entity as u64));
            let kept = match o.survivor {
                Some(p) => b.projectiles.update(k, p),
                None => b.projectiles.remove(k),
            };
            let projectiles = match o.duplicate {
                Some(d) => kept.push(d),
                None => kept,
            };
            let hostiles = if o.damaged {
                match first_hostile(b.hostiles, e.target) {
                    Some(j) => b.hostiles.update(
                        j,
                        Hostile {
                            attributes: crate::attribute::Attributes {
                                health: crate::attribute::Health(
                                    after_hit(b.hostiles[j].attributes.health.0, damage),
                                ),
                                ..b.hostiles[j].attributes
                            },
                            ..b.hostiles[j]
                        },
                    ),
                    None => b.hostiles,
                }
            } else {
                b.hostiles
            };
            Battle {
                projectiles,
                hostiles,
                next_entity: if o.duplicate is Some {
                    b.next_entity + 1
                } else {
                    b.next_entity
                },
            }
        },
    }
}

/// The battle after the damage requests in `events`, in order, with their rolls.
pub open spec fn battle_after_hits(
    b: Battle,
    events: Seq<ProjectileEvent>,
    rolls: Seq<HitRoll>,
    damage: i32,
) -> Battle
    decreases events.len(),
{
    if events.len() == 0 || rolls.len() < events.len() {
        b
    } else {
        battle_after_hit(
            battle_after_hits(b, events.drop_last(), rolls, damage),
            events.last(),
            rolls[events.len() - 1],
            damage,
        )
    }
}

proof fn lemma_first_projectile_found(s: Seq<Projectile>, e: Entity, k0: int)
    requires
        0 <= k0 < s.len(),
        s[k0].entity == e,
    ensures
        first_projectile(s, e) matches Some(k) && 0 <= k < s.len() && s[k].entity == e,
    decreases k0,
{
    if exists|j: int| 0 <= j < k0 && s[j].entity == e {
        let j = choose|j: int| 0 <= j < k0 && s[j].entity == e;
        lemma_first_projectile_found(s, e, j);
    } else {
        assert(0 <= k0 < s.len() && s[k0].entity == e && forall|j: int|
            0 <= j < k0 ==> s[j].entity != e);
    }
}

proof fn lemma_first_hostile_found(s: Seq<Hostile>, e: Entity, k0: int)
    requires
        0 <= k0 < s.len(),
        s[k0].entity == e,
    ensures
        first_hostile(s, e) matches Some(k) && 0 <= k < s.len() && s[k].entity == e,
    decreases k0,
{
    if exists|j: int| 0 <= j < k0 && s[j].entity == e {
        let j = choose|j: int| 0 <= j < k0 && s[j].entity == e;
        lemma_first_hostile_found(s, e, j);
    } else {
        assert(0 <= k0 < s.len() && s[k0].entity == e && forall|j: int|
            0 <= j < k0 ==> s[j].entity != e);
    }
}

/// The hostile after one hit of `damage`.
pub open spec fn struck(h: Hostile, damage: i32) -> Hostile {
    Hostile {
        attributes: crate::attribute::Attributes {
            health: crate::attribute::Health(after_hit(h.attributes.health.0, damage)),
            ..h.attributes
        },
        ..h
    }
}

/// One damage request in a battle of any size, whose projectile is in play: unless
/// the projectile was split off the target, exactly one hostile, the target, takes
/// the damage once and the projectile is spent; a projectile split off the target
/// bounces off it, stays in flight, and no hostile changes. A successful
/// duplication roll adds exactly one projectile, at the point of impact and tagged
/// with the target.
#[verifier::rlimit(40)]
pub proof fn lemma_hit_in_battle(b: Battle, e: ProjectileEvent, roll: HitRoll, damage: i32)
    requires
        exists|k: int| 0 <= k < b.projectiles.len() && b.projectiles[k].entity == e.projectile,
    ensures
        ({
            let k = first_projectile(b.projectiles, e.projectile)->0;
            let p = b.projectiles[k];
            let after = battle_after_hit(b, e, roll, damage);
            let extra: int = if roll.duplicate is Some {
                1
            } else {
                0
            };
            let bounces = p.last_hit == Some(e.target);
            &&& 0 <= k < b.projectiles.len()
            &&& p.entity == e.projectile
            &&& after.next_entity == b.next_entity + extra
            &&& after.hostiles.len() == b.hostiles.len()
            &&& after.projectiles.len() == b.projectiles.len() + extra - if bounces {
                0int
            } else {
                1int
            }
            &&& bounces ==> {
                &&& after.hostiles == b.hostiles
                &&& after.projectiles[k] == Projectile { velocity: roll.bounce, ..p }
            }
            &&& !bounces ==> {
                &&& forall|j: int|
                    0 <= j < b.hostiles.len() ==> #[trigger] after.hostiles[j] == if first_hostile(
                        b.hostiles,
                        e.target,
                    ) == Some(j) {
                        struck(b.hostiles[j], damage)
                    } else {
                        b.hostiles[j]
                    }
                &&& after.projectiles.subrange(0, b.projectiles.len() - 1) == b.projectiles.remove(k)
            }
            &&& roll.duplicate matches Some(v) ==> after.projectiles.last() == (Projectile {
                entity: Entity(b.next_entity as u64),
                position: p.position,
                velocity: v,
                last_hit: Some(e.target),
            })
        }),
{
    let k0 = choose|k: int| 0 <= k < b.projectiles.len() && b.projectiles[k].entity == e.projectile;
    lemma_first_projectile_found(b.projectiles, e.projectile, k0);
    let k = first_projectile(b.projectiles, e.projectile)->0;
    let p = b.projectiles[k];
    let o = outcome(p, e.target, roll, Entity(b.next_entity as u64));
    let after = battle_after_hit(b, e, roll, damage);
    let kept = match o.survivor {
        Some(q) => b.projectiles.update(k, q),
        None => b.projectiles.remove(k),
    };
    assert(after.projectiles == match o.duplicate {
        Some(d) => kept.push(d),
        None => kept,
    });
    if p.last_hit != Some(e.target) {
        assert(o.damaged && o.survivor is None);
        assert(kept.len() == b.projectiles.len() - 1);
        assert(after.projectiles.subrange(0, b.projectiles.len() - 1) =~= kept);
        if exists|j: int| 0 <= j < b.hostiles.len() && b.hostiles[j].entity == e.target {
            let j0 = choose|j: int| 0 <= j < b.hostiles.len() && b.hostiles[j].entity == e.target;
            lemma_first_hostile_found(b.hostiles, e.target, j0);
            let j = first_hostile(b.hostiles, e.target)->0;
            assert(after.hostiles == b.hostiles.update(j, struck(b.hostiles[j], damage)));
        } else {
            assert(first_hostile(b.hostiles, e.target) is None);
            assert(after.hostiles == b.hostiles);
        }
    } else {
        assert(!o.damaged);
        assert(after.hostiles == b.hostiles);
    }
}

/// Resolves one damage request with its roll.
fn resolve_one(
    event: ProjectileEvent,
    roll: HitRoll,
    projectiles: &mut Vec<Projectile>,
    hostiles: &mut Vec<Hostile>,
    next_entity: &mut u64,
    damage: i32,
)
    requires
        *old(next_entity) < u64::MAX,
    ensures
        ({
            let b = battle_after_hit(
                Battle {
                    projectiles: old(projectiles)@,
                    hostiles: old(hostiles)@,
                    next_entity: *old(next_entity) as int,
                },
                event,
                roll,
                damage,
            );
            &&& final(projectiles)@ == b.projectiles
            &&& final(hostiles)@ == b.hostiles
            &&& *final(next_entity) as int == b.next_entity
        }),
        *old(next_entity) <= *final(next_entity) <= *old(next_entity) + 1,
{
    match find_projectile(projectiles, event.projectile) {
        None => {},
        Some(k) => {
            let o = resolve_hit(projectiles[k], event.target, roll, Entity(*next_entity));
            match o.survivor {
                Some(p) => {
                    projectiles.set(k, p);
                },
                None => {
                    projectiles.remove(k);
                },
            }
            match o.duplicate {
                Some(d) => {
                    projectiles.push(d);
                    *next_entity = *next_entity + 1;
                },
                None => {},
            }
            if o.damaged {
                match find_hostile(hostiles, event.target) {
                    Some(j) => {
                        let h = hostiles[j];
                        let mut attributes = h.attributes;
                        attributes.health.0 = take_hit(attributes.health.0, damage);
                        hostiles.set(j, Hostile { attributes, ..h });
                    },
                    None => {},
                }
            }
        },
    }
}

/// Resolves the damage requests of one tick, in order, each with its roll.
pub fn resolve_collisions(
    events: &Vec<ProjectileEvent>,
    rolls: &Vec<HitRoll>,
    projectiles: &mut Vec<Projectile>,
    hostiles: &mut Vec<Hostile>,
    next_entity: &mut u64,
    damage: i32,
)
    requires
        rolls@.len() == events@.len(),
        old(next_entity) + events@.len() <= u64::MAX,
    ensures
        ({
            let b = battle_after_hits(
                Battle {
                    projectiles: old(projectiles)@,
                    hostiles: old(hostiles)@,
                    next_entity: *old(next_entity) as int,
                },
                events@,
                rolls@,
                damage,
            );
            &&& final(projectiles)@ == b.projectiles
            &&& final(hostiles)@ == b.hostiles
            &&& *final(next_entity) as int == b.next_entity
        }),
{
    let ghost start = Battle {
        projectiles: old(projectiles)@,
        hostiles: old(hostiles)@,
        next_entity: *old(next_entity) as int,
    };
    let mut i: usize = 0;
    while i < events.len()
        invariant
            0 <= i <= events@.len(),
            rolls@.len() == events@.len(),
            *old(next_entity) + events@.len() <= u64::MAX,
            *old(next_entity) <= *next_entity <= *old(next_entity) + i,
            ({
                let b = battle_after_hits(start, events@.subrange(0, i as int), rolls@, damage);
                &&& projectiles@ == b.projectiles
                &&& hostiles@ == b.hostiles
                &&& *next_entity as int == b.next_entity
            }),
        decreases events@.len() - i,
    {
        let event = events[i];
        let roll = rolls[i];
        proof {
            let pre = events@.subrange(0, i + 1);
            assert(pre.drop_last() == events@.subrange(0, i as int));
            assert(pre.last() == event);
        }
        resolve_one(event, roll, projectiles, hostiles, next_entity, damage);
        i = i + 1;
    }
    assert(events@.subrange(0, events@.len() as int) == events@);
}

/// Whether `roll` is one that the duplication chance and the projectile speed allow:
/// a duplicate exactly when some duplication roll in `0..CHANCE_SCALE` came out
/// below `chance`, and velocities that point along a direction sample at length
/// `speed`.
pub open spec fn roll_fits(roll: HitRoll, chance: int, speed: int) -> bool {
    &&& exists|draw: int| #[trigger] duplicates_on(roll, chance, draw)
    &&& roll.duplicate matches Some(v) ==> {
        &&& is_direction(v, speed)
        &&& abs(v.x as int) <= abs(speed)
        &&& abs(v.y as int) <= abs(speed)
    }
    &&& is_direction(roll.bounce, speed)
    &&& abs(roll.bounce.x as int) <= abs(speed)
    &&& abs(roll.bounce.y as int) <= abs(speed)
}

/// Whether `roll` duplicates exactly when the duplication roll `draw`, in
/// `0..CHANCE_SCALE`, comes out below `chance`.
pub open spec fn duplicates_on(roll: HitRoll, chance: int, draw: int) -> bool {
    &&& 0 <= draw < CHANCE_SCALE
    &&& (roll.duplicate is Some <==> draw < chance)
}

/// The outcomes of one hit for given draws: a duplicate flying along `duplicate`
/// exactly when the duplication roll `draw` is below the chance, and a bounce along
/// `bounce`.
pub fn hit_roll(draw: i64, chance: &DupChance, duplicate: Vel, bounce: Vel) -> (r: HitRoll)
    ensures
        r.duplicate == if draw < chance.0 {
            Some(duplicate)
        } else {
            None::<Vel>
        },
        r.bounce == bounce,
{
    if draw < chance.0 as i64 {
        HitRoll { duplicate: Some(duplicate), bounce }
    } else {
        HitRoll { duplicate: None, bounce }
    }
}

/// Draws the random outcomes of one hit.
fn roll_hit(rng: &mut GlobalRng, chance: &DupChance, speed: &ProjectileSpeed) -> (r: HitRoll)
    ensures
        roll_fits(r, chance.0 as int, speed.0 as int),
{
    let draw = random_in(rng, 0, CHANCE_SCALE - 1);
    let duplicate = random_direction(rng, speed.0);
    let bounce = random_direction(rng, speed.0);
    let r = hit_roll(draw, chance, duplicate, bounce);
    assert(duplicates_on(r, chance.0 as int, draw as int));
    r
}

/// Resolves the damage requests of one tick with the player's damage, duplication
/// chance and projectile speed, drawing the random outcomes of each hit.
pub fn handle_collision(
    events: &Vec<ProjectileEvent>,
    projectiles: &mut Vec<Projectile>,
    hostiles: &mut Vec<Hostile>,
    next_entity: &mut u64,
    damage: &Damage,
    chance: &DupChance,
    speed: &ProjectileSpeed,
    rng: &mut GlobalRng,
)
    requires
        old(next_entity) + events@.len() <= u64::MAX,
    ensures
        exists|rolls: Seq<HitRoll>|
            {
                &&& rolls.len() == events@.len()
                &&& forall|i: int|
                    0 <= i < rolls.len() ==> roll_fits(
                        #[trigger] rolls[i],
                        chance.0 as int,
                        speed.0 as int,
                    )
                &&& ({
                    let b = #[trigger] battle_after_hits(
                        Battle {
                            projectiles: old(projectiles)@,
                            hostiles: old(hostiles)@,
                            next_entity: *old(next_entity) as int,
                        },
                        events@,
                        rolls,
                        damage.0,
                    );
                    &&& final(projectiles)@ == b.projectiles
                    &&& final(hostiles)@ == b.hostiles
                    &&& *final(next_entity) as int == b.next_entity
                })
            },
{
    let mut rolls: Vec<HitRoll> = Vec::new();
    let mut i: usize = 0;
    while i < events.len()
        invariant
            0 <= i <= events@.len(),
            rolls@.len() == i,
            forall|j: int|
                0 <= j < rolls@.len() ==> roll_fits(#[trigger] rolls@[j], chance.0 as int, speed.0 as int),
        decreases events@.len() - i,
    {
        rolls.push(roll_hit(rng, chance, speed));
        i = i + 1;
    }
    resolve_collisions(events, &rolls, projectiles, hostiles, next_entity, damage.0);
}

/// Which arrow keys are held.
#[derive(Clone, Copy, Debug, PartialEq, Eq, Structural)]
pub struct Aim {
    pub left: bool,
    pub right: bool,
    pub up: bool,
    pub down: bool,
}

pub open spec fn key(b: bool) -> int {
    if b {
        1
    } else {
        0
    }
}

/// The aim as a vector with components in `-1..=1`.
pub open spec fn aim_vector(aim: Aim) -> (int, int) {
    (key(aim.right) - key(aim.left), key(aim.up) - key(aim.down))
}

/// Fires one projectile from `position` when an aim is held and the attack timer
/// has run out; the projectile flies along the aim at `speed` per axis, and the
/// timer starts over.
pub fn spawn_projectile(
    aim: Aim,
    position: Pos,
    speed: &ProjectileSpeed,
    timer: &mut AttackSpeedTimer,
    entity: Entity,
) -> (r: Option<(Projectile, ShootEvent)>)
    ensures
        ({
            let (dx, dy) = aim_vector(aim);
            let fires = (dx != 0 || dy != 0) && old(timer).0.finished;
            &&& fires ==> {
                &&& r == Some(
                    (
                        Projectile {
                            entity,
                            position,
                            velocity: Vel { x: (dx * speed.0) as i64, y: (dy * speed.0) as i64 },
                            last_hit: None,
                        },
                        ShootEvent(),
                    ),
                )
                &&& final(timer).0 == (Timer {
                    elapsed: 0,
                    finished: false,
                    times_finished_this_tick: 0,
                    ..old(timer).0
                })
            }
            &&& !fires ==> r is None && *final(timer) == *old(timer)
        }),
{
    let mut dx: i64 = 0;
    let mut dy: i64 = 0;
    if aim.left {
        dx = dx - 1;
    }
    if aim.right {
        dx = dx + 1;
    }
    if aim.up {
        dy = dy + 1;
    }
    if aim.down {
        dy = dy - 1;
    }
    if (dx == 0 && dy == 0) || !timer.0.finished() {
        return None;
    }
    timer.0.reset();
    let velocity = Vel { x: along(dx, speed.0), y: along(dy, speed.0) };
    Some((Projectile { entity, position, velocity, last_hit: None }, ShootEvent()))
}

/// `speed` along an axis whose component of the aim is `d`.
fn along(d: i64, speed: i32) -> (r: i64)
    requires
        -1 <= d <= 1,
    ensures
        r == d * speed,
{
    if d > 0 {
        assert(d * speed == speed) by (nonlinear_arith)
            requires
                d == 1,
        ;
        speed as i64
    } else if d < 0 {
        assert(d * speed == -speed) by (nonlinear_arith)
            requires
                d == -1,
        ;
        -(speed as i64)
    } else {
        0
    }
}

/// The projectiles of `ps` within `range` of `player`, in order.
pub open spec fn in_range(ps: Seq<Projectile>, player: Pos, range: i32) -> Seq<Projectile>
    decreases ps.len(),
{
    if ps.len() == 0 {
        ps
    } else if range < 0 || distance_sq(ps.last().position, player) > range * range {
        in_range(ps.drop_last(), player, range)
    } else {
        in_range(ps.drop_last(), player, range).push(ps.last())
    }
}

/// Removes every projectile farther than the attack range from the player, whether
/// or not it hit anything.
pub fn despawn_dead_projectiles(projectiles: &mut Vec<Projectile>, player: Pos, range: &AttackRange)
    ensures
        final(projectiles)@ == in_range(old(projectiles)@, player, range.0),
{
    let mut kept: Vec<Projectile> = Vec::new();
    let mut i: usize = 0;
    while i < projectiles.len()
        invariant
            0 <= i <= projectiles@.len(),
            projectiles@ == old(projectiles)@,
            kept@ == in_range(projectiles@.subrange(0, i as int), player, range.0),
        decreases projectiles@.len() - i,
    {
        let p = projectiles[i];
        proof {
            assert(projectiles@.subrange(0, i + 1).drop_last() == projectiles@.subrange(0, i as int));
            assert(projectiles@.subrange(0, i + 1).last() == p);
        }
        if !farther_than(p.position, player, range.0) {
            kept.push(p);
        }
        i = i + 1;
    }
    assert(projectiles@.subrange(0, projectiles@.len() as int) == projectiles@);
    *projectiles = kept;
}

/// Brings every projectile to the current projectile speed, keeping its direction.
pub fn update_projectile_speed(projectiles: &mut Vec<Projectile>, speed: &ProjectileSpeed)
    requires
        forall|i: int|
            0 <= i < old(projectiles)@.len() ==> abs(#[trigger] old(projectiles)@[i].velocity.x as int)
                <= COMPONENT_LIMIT && abs(old(projectiles)@[i].velocity.y as int) <= COMPONENT_LIMIT,
    ensures
        final(projectiles)@.len() == old(projectiles)@.len(),
        forall|i: int|
            0 <= i < final(projectiles)@.len() ==> {
                let p = #[trigger] old(projectiles)@[i];
                let v = scaled_to(p.velocity.x as int, p.velocity.y as int, speed.0 as int);
                final(projectiles)@[i] == Projectile { velocity: Vel { x: v.0 as i64, y: v.1 as i64 }, ..p }
            },
        forall|i: int|
            0 <= i < final(projectiles)@.len() ==> abs(#[trigger] final(projectiles)@[i].velocity.x as int)
                <= abs(speed.0 as int) && abs(final(projectiles)@[i].velocity.y as int) <= abs(speed.0 as int),
{
    let mut i: usize = 0;
    while i < projectiles.len()
        invariant
            0 <= i <= projectiles@.len(),
            projectiles@.len() == old(projectiles)@.len(),
            forall|j: int| i <= j < projectiles@.len() ==> #[trigger] projectiles@[j] == old(projectiles)@[j],
            forall|j: int|
                0 <= j < old(projectiles)@.len() ==> abs(#[trigger] old(projectiles)@[j].velocity.x as int)
                    <= COMPONENT_LIMIT && abs(old(projectiles)@[j].velocity.y as int) <= COMPONENT_LIMIT,
            forall|j: int|
                0 <= j < i ==> {
                    let p = #[trigger] old(projectiles)@[j];
                    let v = scaled_to(p.velocity.x as int, p.velocity.y as int, speed.0 as int);
                    projectiles@[j] == Projectile { velocity: Vel { x: v.0 as i64, y: v.1 as i64 }, ..p }
                },
            forall|j: int|
                0 <= j < i ==> abs(#[trigger] projectiles@[j].velocity.x as int) <= abs(speed.0 as int)
                    && abs(projectiles@[j].velocity.y as int) <= abs(speed.0 as int),
        decreases projectiles@.len() - i,
    {
        let p = projectiles[i];
        assert(p == old(projectiles)@[i as int]);
        let v = scale_to(p.velocity.x, p.velocity.y, speed.0 as i64);
        projectiles.set(i, Projectile { velocity: v, ..p });
        i = i + 1;
    }
}

} // verus!
