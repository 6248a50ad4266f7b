use bevy_turborand::GlobalRng;
use survival_core::attribute::{insert_common, Attributes, Damage, Health, MaxHealth};
use survival_core::buff::{affects_except, apply, Affect, Apply, Choices, Diff};
use survival_core::hostile::SpawnRate;
use survival_core::Entity;

fn diff(affect: Affect, value: i32) -> Diff {
    Diff { affect, value }
}

fn applied(d: Diff) -> (Attributes, SpawnRate) {
    let mut a = insert_common();
    let mut rate = SpawnRate(3_000_000_000);
    d.apply_to(&mut a, &mut rate);
    (a, rate)
}

#[test]
fn health_buff_scales_health_and_max_together() {
    let (a, _) = applied(diff(Affect::Health, 5));
    assert_eq!(a.health, Health(105));
    assert_eq!(a.max_health, MaxHealth(105));
}

#[test]
fn damage_debuff_truncates() {
    let (a, _) = applied(diff(Affect::Damage, -20));
    assert_eq!(a.damage, Damage(28));
}

#[test]
fn floors_hold_for_very_negative_values() {
    let (a, _) = applied(diff(Affect::Health, -1_000_000));
    assert_eq!(a.health.0, 1);
    assert_eq!(a.max_health.0, 1);
    let (a, _) = applied(diff(Affect::Damage, -250));
    assert_eq!(a.damage.0, 1);
    let (a, _) = applied(diff(Affect::AttackRange, -99));
    assert_eq!(a.attack_range.0, 10_000);
    let (a, _) = applied(diff(Affect::AttackRange, i32::MIN + 1));
    assert_eq!(a.attack_range.0, 10_000);
}

#[test]
fn attack_speed_buff_shortens_the_interval() {
    let (a, _) = applied(diff(Affect::AttackSpeed, 20));
    assert_eq!(a.attack_speed.0, 400_000_000);
    let (a, _) = applied(diff(Affect::AttackSpeed, -20));
    assert_eq!(a.attack_speed.0, 600_000_000);
}

#[test]
fn spawn_rate_buff_shortens_the_spawn_interval() {
    let (a, rate) = applied(diff(Affect::SpawnRate, 10));
    assert_eq!(rate, SpawnRate(2_700_000_000));
    assert_eq!(a, insert_common());
}

#[test]
fn magnitudes_multiply_straight() {
    let (a, _) = applied(diff(Affect::MoveSpeed, 20));
    assert_eq!(a.move_speed.0, 3_000);
    let (a, _) = applied(diff(Affect::DupChance, 50));
    assert_eq!(a.dup_chance.0, 150);
    let (a, _) = applied(diff(Affect::ProjectileSpeed, -10));
    assert_eq!(a.projectile_speed.0, 450_000);
    let (a, _) = applied(diff(Affect::MoveSpeed, -300));
    assert_eq!(a.move_speed.0, -5_000);
}

#[test]
fn zero_diff_changes_nothing() {
    for affect in affects_except(None) {
        let (a, rate) = applied(diff(affect, 0));
        assert_eq!(a, insert_common());
        assert_eq!(rate, SpawnRate(3_000_000_000));
    }
}

#[test]
fn diff_and_its_negation_do_not_restore() {
    let mut a = insert_common();
    let mut rate = SpawnRate(3_000_000_000);
    let up = diff(Affect::MoveSpeed, 20);
    up.apply_to(&mut a, &mut rate);
    up.neg().apply_to(&mut a, &mut rate);
    assert_eq!(a.move_speed.0, 2_400);
    assert_ne!(a.move_speed.0, 2_500);
}

#[test]
fn neg_flips_the_value() {
    let d = diff(Affect::DupChance, 15).neg();
    assert_eq!(d, diff(Affect::DupChance, -15));
}

#[test]
fn apply_skips_other_targets() {
    let player = Entity(1);
    let events = vec![
        Apply { diff: diff(Affect::Damage, 20), target: player },
        Apply { diff: diff(Affect::Damage, 20), target: Entity(7) },
        Apply { diff: diff(Affect::Health, -10), target: player },
    ];
    let mut a = insert_common();
    let mut rate = SpawnRate(3_000_000_000);
    apply(&events, player, &mut a, &mut rate);
    assert_eq!(a.damage.0, 42);
    assert_eq!(a.health.0, 90);
    assert_eq!(a.max_health.0, 90);
}

#[test]
fn affects_except_leaves_out_the_skipped_one() {
    let all = affects_except(None);
    assert_eq!(all.len(), 8);
    let rest = affects_except(Some(Affect::SpawnRate));
    assert_eq!(rest.len(), 7);
    assert!(!rest.contains(&Affect::SpawnRate));
}

#[test]
fn random_diff_respects_skip_and_steps() {
    let mut rng = GlobalRng::with_seed(7);
    for _ in 0..200 {
        let d = Diff::random(&mut rng, Some(Affect::Damage));
        assert_ne!(d.affect, Affect::Damage);
        assert!([5, 10, 15, 20].contains(&d.value));
    }
}

#[test]
fn generated_debuff_differs_from_buff() {
    let mut rng = GlobalRng::with_seed(11);
    for _ in 0..50 {
        let c = Choices::random(3, &mut rng);
        assert_eq!(c.inner.len(), 3);
        assert_eq!(c.remaining, 0);
        for (buff, debuff) in c.inner.iter() {
            assert_ne!(buff.affect, debuff.affect);
            assert_eq!(debuff.value, -buff.value);
            assert!([5, 10, 15, 20].contains(&buff.value));
        }
    }
}

#[test]
fn randomize_keeps_owed_selections() {
    let mut rng = GlobalRng::with_seed(3);
    let mut c = Choices::default();
    assert!(c.inner.is_empty());
    c.remaining = 2;
    c.randomize(3, &mut rng);
    assert_eq!(c.remaining, 2);
    assert_eq!(c.inner.len(), 3);
}

#[test]
fn round_trip_on_a_negative_chance_moves_toward_zero() {
    let mut a = insert_common();
    a.dup_chance.0 = -300;
    let mut rate = SpawnRate(1);
    let up = diff(Affect::DupChance, 15);
    up.apply_to(&mut a, &mut rate);
    assert_eq!(a.dup_chance.0, -345);
    up.neg().apply_to(&mut a, &mut rate);
    assert_eq!(a.dup_chance.0, -293);
}
