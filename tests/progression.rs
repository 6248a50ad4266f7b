use bevy_turborand::GlobalRng;
use survival_core::attribute::{level_up, Experience, LevelUpEvent};
use survival_core::buff::{Affect, Choices, Diff};
use survival_core::hostile::Score;
use survival_core::player::{spawn, Player};
use survival_core::ui::{restart, select_power, UpgradeSelectedEvent};
use survival_core::{Entity, GameState};

#[test]
fn rollover_carries_the_excess() {
    let mut xp = Experience { current: 95, cap: 100 };
    xp.current = 110;
    let mut choices = Choices::default();
    let mut state = GameState::Game;
    let ev = level_up(&mut xp, true, &mut choices, &mut state);
    assert_eq!(ev, Some(LevelUpEvent()));
    assert_eq!(xp, Experience { current: 10, cap: 200 });
    assert_eq!(state, GameState::LevelUp);
}

#[test]
fn one_rollover_per_check() {
    let mut xp = Experience { current: 350, cap: 100 };
    let mut choices = Choices::default();
    let mut state = GameState::Game;
    level_up(&mut xp, true, &mut choices, &mut state);
    assert_eq!(xp, Experience { current: 250, cap: 200 });
    assert_eq!(choices.remaining, 1);
}

#[test]
fn gaining_twenty_at_ninety_levels_once() {
    let mut xp = Experience { current: 90, cap: 100 };
    xp.current += 20;
    let mut choices = Choices::default();
    choices.remaining = 4;
    let mut state = GameState::Game;
    let ev = level_up(&mut xp, true, &mut choices, &mut state);
    assert_eq!(ev, Some(LevelUpEvent()));
    assert_eq!(xp.current, 10);
    assert_eq!(xp.cap, 200);
    assert_eq!(choices.remaining, 5);
}

#[test]
fn unchanged_experience_is_not_checked() {
    let mut xp = Experience { current: 150, cap: 100 };
    let mut choices = Choices::default();
    let mut state = GameState::Game;
    assert_eq!(level_up(&mut xp, false, &mut choices, &mut state), None);
    assert_eq!(xp, Experience { current: 150, cap: 100 });
    assert_eq!(choices.remaining, 0);
    assert_eq!(state, GameState::Game);
}

#[test]
fn below_cap_no_level() {
    let mut xp = Experience { current: 99, cap: 100 };
    let mut choices = Choices::default();
    let mut state = GameState::Game;
    assert_eq!(level_up(&mut xp, true, &mut choices, &mut state), None);
    assert_eq!(xp.current, 99);
}

#[test]
fn nothing_owed_resumes_play() {
    let mut rng = GlobalRng::with_seed(1);
    let mut choices = Choices::default();
    let mut state = GameState::LevelUp;
    let (applies, ev) = select_power(&mut choices, &mut state, Some(0), Entity(1), &mut rng);
    assert!(applies.is_empty());
    assert_eq!(ev, None);
    assert_eq!(state, GameState::Game);
}

#[test]
fn selecting_requests_buff_and_debuff() {
    let mut rng = GlobalRng::with_seed(2);
    let buff = Diff { affect: Affect::Damage, value: 10 };
    let debuff = Diff { affect: Affect::MoveSpeed, value: -10 };
    let mut choices = Choices { inner: vec![(buff, debuff)], remaining: 2 };
    let mut state = GameState::LevelUp;
    let (applies, ev) = select_power(&mut choices, &mut state, Some(0), Entity(9), &mut rng);
    assert_eq!(ev, Some(UpgradeSelectedEvent));
    assert_eq!(applies.len(), 2);
    assert_eq!(applies[0].diff, buff);
    assert_eq!(applies[1].diff, debuff);
    assert_eq!(applies[0].target, Entity(9));
    assert_eq!(choices.remaining, 1);
    assert_eq!(choices.inner.len(), 3);
    assert_eq!(state, GameState::LevelUp);
}

#[test]
fn empty_offer_is_filled_before_selection() {
    let mut rng = GlobalRng::with_seed(5);
    let mut choices = Choices::default();
    choices.remaining = 1;
    let mut state = GameState::LevelUp;
    let (applies, ev) = select_power(&mut choices, &mut state, None, Entity(1), &mut rng);
    assert!(applies.is_empty());
    assert_eq!(ev, None);
    assert_eq!(choices.inner.len(), 3);
    assert_eq!(choices.remaining, 1);
}

#[test]
fn restart_resets_player_and_score() {
    let mut player: Player = spawn(Entity(1));
    player.attributes.health.0 = 0;
    player.experience.current = 40;
    let mut state = GameState::Dead;
    let mut score = Score(120);
    assert!(restart(false, &mut player, Entity(2), &mut state, &mut score).is_none());
    assert_eq!(state, GameState::Dead);
    assert!(restart(true, &mut player, Entity(2), &mut state, &mut score).is_some());
    assert_eq!(player, spawn(Entity(2)));
    assert_eq!(player.attributes.health.0, 100);
    assert_eq!(player.experience, Experience { current: 0, cap: 100 });
    assert_eq!(state, GameState::Game);
    assert_eq!(score, Score(0));
}
