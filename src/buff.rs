use bevy_turborand::GlobalRng;
use vstd::prelude::*;

use crate::attribute::{
    AttackRange, AttackSpeed, Attributes, Damage, DupChance, Health, MaxHealth, MoveSpeed,
};
use crate::geometry::{abs, clamp, div_toward_zero, div_trunc};
use crate::hostile::SpawnRate;
use crate::projectile::ProjectileSpeed;
use crate::rng::sample;
use crate::Entity;

verus! {

/// The kinds of attribute that a diff can change.
#[derive(Clone, Copy, Debug, PartialEq, Eq, Structural, Hash)]
pub enum Affect {
    Health,
    Damage,
    MoveSpeed,
    AttackSpeed,
    AttackRange,
    SpawnRate,
    DupChance,
    ProjectileSpeed,
}

/// A proposed change to one attribute. `value` is a signed fraction in hundredths:
/// 5 stands for +5 %, -20 for -20 %.
#[derive(Clone, Copy, Debug, PartialEq, Eq, Structural)]
pub struct Diff {
    pub affect: Affect,
    pub value: i32,
}

/// Upgrade choices on offer: pairs of a buff and its offsetting debuff, and the
/// number of selections still owed to the player.
#[derive(Debug)]
pub struct Choices {
    pub inner: Vec<(Diff, Diff)>,
    pub remaining: u32,
}

/// A request to apply `diff` to the attributes of `target`.
#[derive(Clone, Copy, Debug, PartialEq, Eq, Structural)]
pub struct Apply {
    pub diff: Diff,
    pub target: Entity,
}

/// Lowest health, maximum health and damage that a diff can leave.
pub const MIN_POINTS: i32 = 1;

/// Lowest attack range that a diff can leave: ten pixels.
pub const MIN_ATTACK_RANGE: i32 = 10_000;

pub open spec fn all_affects() -> Seq<Affect> {
    seq![
        Affect::Health,
        Affect::Damage,
        Affect::MoveSpeed,
        Affect::AttackSpeed,
        Affect::AttackRange,
        Affect::SpawnRate,
        Affect::DupChance,
        Affect::ProjectileSpeed,
    ]
}

/// The magnitudes that generated diffs take, in hundredths.
pub open spec fn step_values() -> Seq<i32> {
    seq![5i32, 10i32, 15i32, 20i32]
}

pub open spec fn is_step(v: i32) -> bool {
    step_values().contains(v)
}

/// A buff paired with a debuff of another affect and of the opposite magnitude.
pub open spec fn valid_choice(c: (Diff, Diff)) -> bool {
    &&& is_step(c.0.value)
    &&& c.1.affect != c.0.affect
    &&& c.1.value == -c.0.value
}

pub open spec fn all_valid(s: Seq<(Diff, Diff)>) -> bool {
    forall|i: int| 0 <= i < s.len() ==> #[trigger] valid_choice(s[i])
}

/// `x` scaled by `percent` hundredths, rounded toward zero.
pub open spec fn scaled(x: int, percent: int) -> int {
    div_trunc(x * percent, 100)
}

pub open spec fn scaled_i32(x: i32, percent: int, lo: int) -> i32 {
    clamp(scaled(x as int, percent), lo, i32::MAX as int) as i32
}

pub open spec fn scaled_u64(x: u64, percent: int) -> u64 {
    clamp(scaled(x as int, percent), 0, u64::MAX as int) as u64
}

impl Diff {
    /// Factor of the change in hundredths: `100 + value`.
    pub open spec fn percent(self) -> int {
        100 + self.value
    }

    /// Factor for durations, where a buff shortens: `100 - value`.
    pub open spec fn inverted_percent(self) -> int {
        100 - self.value
    }

    /// The attributes and spawn rate after this diff. Health scales health and
    /// maximum health together; durations scale by the inverted factor; floors
    /// hold for health, maximum health, damage and range; every value saturates at
    /// the bounds of its type.
    pub open spec fn applied(self, a: Attributes, rate: SpawnRate) -> (Attributes, SpawnRate) {
        let p = self.percent();
        let q = self.inverted_percent();
        match self.affect {
            Affect::Health => (
                Attributes {
                    health: Health(scaled_i32(a.health.0, p, MIN_POINTS as int)),
                    max_health: MaxHealth(scaled_i32(a.max_health.0, p, MIN_POINTS as int)),
                    ..a
                },
                rate,
            ),
            Affect::Damage => (
                Attributes { damage: Damage(scaled_i32(a.damage.0, p, MIN_POINTS as int)), ..a },
                rate,
            ),
            Affect::MoveSpeed => (
                Attributes {
                    move_speed: MoveSpeed(scaled_i32(a.move_speed.0, p, i32::MIN as int)),
                    ..a
                },
                rate,
            ),
            Affect::AttackSpeed => (
                Attributes { attack_speed: AttackSpeed(scaled_u64(a.attack_speed.0, q)), ..a },
                rate,
            ),
            Affect::AttackRange => (
                Attributes {
                    attack_range: AttackRange(
                        scaled_i32(a.attack_range.0, p, MIN_ATTACK_RANGE as int),
                    ),
                    ..a
                },
                rate,
            ),
            Affect::SpawnRate => (a, SpawnRate(scaled_u64(rate.0, q))),
            Affect::DupChance => (
                Attributes {
                    dup_chance: DupChance(scaled_i32(a.dup_chance.0, p, i32::MIN as int)),
                    ..a
                },
                rate,
            ),
            Affect::ProjectileSpeed => (
                Attributes {
                    projectile_speed: ProjectileSpeed(
                        scaled_i32(a.projectile_speed.0, p, i32::MIN as int),
                    ),
                    ..a
                },
                rate,
            ),
        }
    }

    /// The same affect with the opposite value.
    pub fn neg(self) -> (r: Diff)
        requires
            self.value > i32::MIN,
        ensures
            r.affect == self.affect,
            r.value == -self.value,
    {
        Diff { affect: self.affect, value: -self.value }
    }

    /// Applies this diff to `attributes`, or to `spawn_rate` for the spawn-rate affect.
    pub fn apply_to(&self, attributes: &mut Attributes, spawn_rate: &mut SpawnRate)
        ensures
            (*final(attributes), *final(spawn_rate)) == self.applied(
                *old(attributes),
                *old(spawn_rate),
            ),
    {
        let p: i128 = 100 + self.value as i128;
        let q: i128 = 100 - self.value as i128;
        let min_points: i128 = MIN_POINTS as i128;
        let low: i128 = i32::MIN as i128;
        let high: i128 = i32::MAX as i128;
        match self.affect {
            Affect::Health => {
                attributes.health = Health(
                    scale_clamped(attributes.health.0 as i128, p, min_points, high) as i32,
                );
                attributes.max_health = MaxHealth(
                    scale_clamped(attributes.max_health.0 as i128, p, min_points, high) as i32,
                );
            },
            Affect::Damage => {
                attributes.damage = Damage(
                    scale_clamped(attributes.damage.0 as i128, p, min_points, high) as i32,
                );
            },
            Affect::MoveSpeed => {
                attributes.move_speed = MoveSpeed(
                    scale_clamped(attributes.move_speed.0 as i128, p, low, high) as i32,
                );
            },
            Affect::AttackSpeed => {
                attributes.attack_speed = AttackSpeed(
                    scale_clamped(attributes.attack_speed.0 as i128, q, 0, u64::MAX as i128)
                        as u64,
                );
            },
            Affect::AttackRange => {
                attributes.attack_range = AttackRange(
                    scale_clamped(
                        attributes.attack_range.0 as i128,
                        p,
                        MIN_ATTACK_RANGE as i128,
                        high,
                    ) as i32,
                );
            },
            Affect::SpawnRate => {
                spawn_rate.0 = scale_clamped(spawn_rate.0 as i128, q, 0, u64::MAX as i128) as u64;
            },
            Affect::DupChance => {
                attributes.dup_chance = DupChance(
                    scale_clamped(attributes.dup_chance.0 as i128, p, low, high) as i32,
                );
            },
            Affect::ProjectileSpeed => {
                attributes.projectile_speed = ProjectileSpeed(
                    scale_clamped(attributes.projectile_speed.0 as i128, p, low, high) as i32,
                );
            },
        }
    }
}

/// `x` scaled by `percent` hundredths, rounded toward zero and clamped to `lo..=hi`.
fn scale_clamped(x: i128, percent: i128, lo: i128, hi: i128) -> (r: i128)
    requires
        -0x1_0000_0000_0000_0000 <= x <= 0x1_0000_0000_0000_0000,
        -0x1_0000_0000 <= percent <= 0x1_0000_0000,
        lo <= hi,
    ensures
        r as int == clamp(scaled(x as int, percent as int), lo as int, hi as int),
{
    assert(-0x1_0000_0000_0000_0000 * 0x1_0000_0000 <= x * percent <= 0x1_0000_0000_0000_0000
        * 0x1_0000_0000) by (nonlinear_arith)
        requires
            -0x1_0000_0000_0000_0000 <= x <= 0x1_0000_0000_0000_0000,
            -0x1_0000_0000 <= percent <= 0x1_0000_0000,
    ;
    let v = div_toward_zero(x * percent, 100);
    if v < lo {
        lo
    } else if v > hi {
        hi
    } else {
        v
    }
}

/// Whether `a` is the affect that `skip` excludes.
pub open spec fn excluded(a: Affect, skip: Option<Affect>) -> bool {
    skip == Some(a)
}

proof fn lemma_every_affect_listed(a: Affect)
    ensures
        all_affects().contains(a),
{
    let s = all_affects();
    let i: int = match a {
        Affect::Health => 0,
        Affect::Damage => 1,
        Affect::MoveSpeed => 2,
        Affect::AttackSpeed => 3,
        Affect::AttackRange => 4,
        Affect::SpawnRate => 5,
        Affect::DupChance => 6,
        Affect::ProjectileSpeed => 7,
    };
    assert(s[i] == a);
}

fn is_excluded(a: Affect, skip: Option<Affect>) -> (r: bool)
    ensures
        r == excluded(a, skip),
{
    match skip {
        Some(s) => s == a,
        None => false,
    }
}

/// Every affect but the one that `skip` names.
pub fn affects_except(skip: Option<Affect>) -> (r: Vec<Affect>)
    ensures
        forall|a: Affect| r@.contains(a) <==> !excluded(a, skip),
        r@.len() > 0,
{
    let all = vec![
        Affect::Health,
        Affect::Damage,
        Affect::MoveSpeed,
        Affect::AttackSpeed,
        Affect::AttackRange,
        Affect::SpawnRate,
        Affect::DupChance,
        Affect::ProjectileSpeed,
    ];
    assert(all@ == all_affects());
    let mut r: Vec<Affect> = Vec::new();
    let mut i: usize = 0;
    while i < all.len()
        invariant
            all@ == all_affects(),
            0 <= i <= all@.len(),
            forall|j: int| 0 <= j < r@.len() ==> !excluded(#[trigger] r@[j], skip),
            forall|k: int| 0 <= k < i && !excluded(all@[k], skip) ==> r@.contains(#[trigger] all@[k]),
        decreases all@.len() - i,
    {
        let a = all[i];
        let ghost before = r@;
        if !is_excluded(a, skip) {
            r.push(a);
            proof {
                assert(r@[r@.len() - 1] == a);
                assert forall|k: int| 0 <= k < i && !excluded(all@[k], skip) implies r@.contains(
                    #[trigger] all@[k],
                ) by {
                    let j = choose|j: int| 0 <= j < before.len() && before[j] == all@[k];
                    assert(r@[j] == before[j]);
                }
            }
        }
        i = i + 1;
    }
    proof {
        assert forall|a: Affect| r@.contains(a) <==> !excluded(a, skip) by {
            if r@.contains(a) {
                let j = choose|j: int| 0 <= j < r@.len() && r@[j] == a;
                assert(!excluded(r@[j], skip));
            }
            if !excluded(a, skip) {
                lemma_every_affect_listed(a);
                let k = choose|k: int| 0 <= k < 8 && all@[k] == a;
                assert(r@.contains(all@[k]));
            }
        }
        let some = if skip == Some(Affect::Health) {
            Affect::Damage
        } else {
            Affect::Health
        };
        assert(r@.contains(some));
    }
    r
}

impl Diff {
    /// Draws an affect other than `skip`, and a magnitude among the step values.
    pub fn random(rng: &mut GlobalRng, skip: Option<Affect>) -> (r: Diff)
        ensures
            !excluded(r.affect, skip),
            is_step(r.value),
    {
        let candidates = affects_except(skip);
        let affect = match sample(rng, candidates.as_slice()) {
            Some(a) => a,
            None => {
                proof {
                    assert(false);
                }
                Affect::Health
            },
        };
        let values: Vec<i32> = vec![5, 10, 15, 20];
        assert(values@ == step_values());
        let value = match sample(rng, values.as_slice()) {
            Some(v) => v,
            None => {
                proof {
                    assert(false);
                }
                5
            },
        };
        Diff { affect, value }
    }
}

impl Choices {
    /// `count` fresh choices, none of them selected yet.
    pub fn random(count: u32, rng: &mut GlobalRng) -> (r: Choices)
        ensures
            r.inner@.len() == count,
            all_valid(r.inner@),
            r.remaining == 0,
    {
        let mut inner: Vec<(Diff, Diff)> = Vec::new();
        let mut i: u32 = 0;
        while i < count
            invariant
                i <= count,
                inner@.len() == i,
                all_valid(inner@),
            decreases count - i,
        {
            let buff = Diff::random(rng, None);
            let other = Diff::random(rng, Some(buff.affect));
            let debuff = Diff { affect: other.affect, value: -buff.value };
            inner.push((buff, debuff));
            proof {
                assert(valid_choice(inner@[i as int]));
            }
            i = i + 1;
        }
        Choices { inner, remaining: 0 }
    }

    /// Replaces the choices on offer and keeps the selections still owed.
    pub fn randomize(&mut self, count: u32, rng: &mut GlobalRng)
        ensures
            final(self).inner@.len() == count,
            all_valid(final(self).inner@),
            final(self).remaining == old(self).remaining,
    {
        let remaining = self.remaining;
        *self = Choices::random(count, rng);
        self.remaining = remaining;
    }
}

impl Default for Choices {
    fn default() -> (r: Choices)
        ensures
            r.inner@.len() == 0,
            r.remaining == 0,
    {
        Choices { inner: Vec::new(), remaining: 0 }
    }
}

/// The attributes of `target` and the spawn rate after the requests in `events`,
/// in order. Requests for other entities are skipped.
pub open spec fn apply_events(
    events: Seq<Apply>,
    target: Entity,
    a: Attributes,
    rate: SpawnRate,
) -> (Attributes, SpawnRate)
    decreases events.len(),
{
    if events.len() == 0 {
        (a, rate)
    } else {
        let (a1, r1) = apply_events(events.drop_last(), target, a, rate);
        let e = events.last();
        if e.target == target {
            e.diff.applied(a1, r1)
        } else {
            (a1, r1)
        }
    }
}

/// Applies each request aimed at `target`, the entity that carries the full
/// attribute set; a request for any other entity finds no attribute set and is
/// skipped without error.
pub fn apply(
    reader: &Vec<Apply>,
    target: Entity,
    attributes: &mut Attributes,
    spawn_rate: &mut SpawnRate,
)
    ensures
        (*final(attributes), *final(spawn_rate)) == apply_events(
            reader@,
            target,
            *old(attributes),
            *old(spawn_rate),
        ),
{
    let mut i: usize = 0;
    while i < reader.len()
        invariant
            0 <= i <= reader@.len(),
            (*attributes, *spawn_rate) == apply_events(
                reader@.subrange(0, i as int),
                target,
                *old(attributes),
                *old(spawn_rate),
            ),
        decreases reader@.len() - i,
    {
        let event = reader[i];
        proof {
            assert(reader@.subrange(0, i + 1).drop_last() == reader@.subrange(0, i as int));
        }
        if event.target == target {
            event.diff.apply_to(attributes, spawn_rate);
        }
        i = i + 1;
    }
    assert(reader@.subrange(0, reader@.len() as int) == reader@);
}

/// Health, maximum health, damage and attack range that no diff can push lower.
pub open spec fn within_floors(a: Attributes) -> bool {
    &&& a.health.0 >= MIN_POINTS
    &&& a.max_health.0 >= MIN_POINTS
    &&& a.damage.0 >= MIN_POINTS
    &&& a.attack_range.0 >= MIN_ATTACK_RANGE
}

/// Whatever its value, however negative, a diff leaves the attribute it targets at
/// or above that attribute's floor, and leaves attributes within their floors
/// within them.
pub proof fn lemma_floors_hold(diff: Diff, a: Attributes, rate: SpawnRate)
    ensures
        diff.affect == Affect::Health ==> {
            &&& diff.applied(a, rate).0.health.0 >= MIN_POINTS
            &&& diff.applied(a, rate).0.max_health.0 >= MIN_POINTS
        },
        diff.affect == Affect::Damage ==> diff.applied(a, rate).0.damage.0 >= MIN_POINTS,
        diff.affect == Affect::AttackRange ==> diff.applied(a, rate).0.attack_range.0
            >= MIN_ATTACK_RANGE,
        within_floors(a) ==> within_floors(diff.applied(a, rate).0),
{
}

/// A diff of value zero changes nothing on attributes within their floors.
pub proof fn lemma_zero_diff_is_identity(affect: Affect, a: Attributes, rate: SpawnRate)
    requires
        within_floors(a),
    ensures
        (Diff { affect, value: 0 }).applied(a, rate) == (a, rate),
{
    let d = Diff { affect, value: 0 };
    assert forall|x: int| #[trigger] scaled(x, 100) == x by {
        assert(x * 100 >= 0 <==> x >= 0) by (nonlinear_arith);
        assert((x * 100) / 100 == x) by (nonlinear_arith);
        assert((-(x * 100)) / 100 == -x) by (nonlinear_arith);
    }
    assert(d.percent() == 100);
    assert(d.inverted_percent() == 100);
}

/// The magnitude-style attribute that `affect` scales, if it is one.
pub open spec fn magnitude_of(a: Attributes, affect: Affect) -> int {
    match affect {
        Affect::MoveSpeed => a.move_speed.0 as int,
        Affect::DupChance => a.dup_chance.0 as int,
        Affect::ProjectileSpeed => a.projectile_speed.0 as int,
        _ => 0,
    }
}

pub open spec fn is_magnitude(affect: Affect) -> bool {
    affect == Affect::MoveSpeed || affect == Affect::DupChance || affect == Affect::ProjectileSpeed
}

/// Scaling by a non-negative factor, then saturating, shrinks the magnitude at
/// least as much as the exact product does.
proof fn lemma_scaled_abs_bound(x: int, p: int)
    requires
        p >= 0,
    ensures
        abs(clamp(scaled(x, p), i32::MIN as int, i32::MAX as int)) * 100 <= abs(x) * p,
{
    let v = x * p;
    assert(abs(v) == abs(x) * p) by {
        if x >= 0 {
            assert(x * p >= 0) by (nonlinear_arith)
                requires
                    x >= 0,
                    p >= 0,
            ;
        } else {
            assert(x * p <= 0 && -(x * p) == (-x) * p) by (nonlinear_arith)
                requires
                    x < 0,
                    p >= 0,
            ;
        }
    }
    let w = abs(v);
    assert(abs(scaled(x, p)) == w / 100);
    assert((w / 100) * 100 <= w) by (nonlinear_arith)
        requires
            w >= 0,
    ;
}

/// Scaling is multiplicative: on a magnitude-style attribute (move speed,
/// duplication chance, projectile speed), a diff followed by its negation leaves a
/// non-zero value strictly closer to zero than it was, so the starting value is
/// not restored.
pub proof fn lemma_round_trip_shrinks(a: Attributes, rate: SpawnRate, affect: Affect, value: i32)
    requires
        is_magnitude(affect),
        magnitude_of(a, affect) != 0,
        -100 <= value <= 100,
        value != 0,
    ensures
        ({
            let up = Diff { affect, value };
            let down = Diff { affect, value: (-value) as i32 };
            let (a1, r1) = up.applied(a, rate);
            let end = magnitude_of(down.applied(a1, r1).0, affect);
            &&& abs(end) < abs(magnitude_of(a, affect))
            &&& end != magnitude_of(a, affect)
        }),
{
    let x = magnitude_of(a, affect);
    let p = 100 + value;
    let q = 100 - value;
    let up = Diff { affect, value };
    let down = Diff { affect, value: (-value) as i32 };
    let (a1, r1) = up.applied(a, rate);
    let y = magnitude_of(a1, affect);
    let z = magnitude_of(down.applied(a1, r1).0, affect);
    assert(y == clamp(scaled(x, p), i32::MIN as int, i32::MAX as int));
    assert(z == clamp(scaled(y, q), i32::MIN as int, i32::MAX as int));
    lemma_scaled_abs_bound(x, p);
    lemma_scaled_abs_bound(y, q);
    let ax = abs(x);
    let ay = abs(y);
    let az = abs(z);
    assert(az * 10000 <= ax * p * q) by (nonlinear_arith)
        requires
            az * 100 <= ay * q,
            ay * 100 <= ax * p,
            q >= 0,
            p >= 0,
            ax >= 0,
            ay >= 0,
    ;
    assert(ax * p * q < ax * 10000) by (nonlinear_arith)
        requires
            p == 100 + value,
            q == 100 - value,
            value != 0,
            ax > 0,
    ;
}

/// Every generated choice pairs a buff with a debuff of a different affect.
pub proof fn lemma_debuff_differs(choices: Choices, i: int)
    requires
        all_valid(choices.inner@),
        0 <= i < choices.inner@.len(),
    ensures
        choices.inner@[i].1.affect != choices.inner@[i].0.affect,
{
    assert(valid_choice(choices.inner@[i]));
}

} // verus!
