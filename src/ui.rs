use bevy_turborand::GlobalRng;
use vstd::prelude::*;

use crate::buff::{all_valid, valid_choice, Apply, Choices};
use crate::hostile::Score;
use crate::player::{new_player, spawn, Player};
use crate::{Entity, GameState};

verus! {

/// The player pressed a button.
#[derive(Clone, Copy, Debug, PartialEq, Eq, Structural)]
pub struct UiClickedEvent;

/// The player took an upgrade.
#[derive(Clone, Copy, Debug, PartialEq, Eq, Structural)]
pub struct UpgradeSelectedEvent;

/// Number of upgrade choices on offer at a time.
pub const CHOICE_COUNT: u32 = 3;

/// The upgrade screen for one frame. With no selection owed, play resumes. Otherwise
/// an empty offer is filled first; taking choice `clicked` requests its buff and its
/// debuff for the player, uses up one owed selection and replaces the offer.
pub fn select_power(
    choices: &mut Choices,
    game_state: &mut GameState,
    clicked: Option<usize>,
    player: Entity,
    rng: &mut GlobalRng,
) -> (r: (Vec<Apply>, Option<UpgradeSelectedEvent>))
    ensures
        old(choices).remaining == 0 ==> {
            &&& *final(game_state) == GameState::Game
            &&& r.0@.len() == 0
            &&& r.1 is None
            &&& final(choices).inner@ == old(choices).inner@
            &&& final(choices).remaining == 0
        },
        old(choices).remaining > 0 ==> {
            let filled = old(choices).inner@.len() > 0;
            let taken = clicked matches Some(i) && i < if filled {
                old(choices).inner@.len()
            } else {
                CHOICE_COUNT as nat
            };
            &&& *final(game_state) == *old(game_state)
            &&& r.1 is Some <==> taken
            &&& (filled ==> all_valid(old(choices).inner@)) ==> all_valid(final(choices).inner@)
            &&& taken ==> {
                &&& r.0@.len() == 2
                &&& r.0@[0].target == player
                &&& r.0@[1].target == player
                &&& filled ==> (r.0@[0].diff, r.0@[1].diff) == old(choices).inner@[clicked->0 as int]
                &&& !filled ==> valid_choice((r.0@[0].diff, r.0@[1].diff))
                &&& final(choices).remaining == old(choices).remaining - 1
                &&& final(choices).inner@.len() == CHOICE_COUNT
                &&& all_valid(final(choices).inner@)
            }
            &&& !taken ==> {
                &&& r.0@.len() == 0
                &&& final(choices).remaining == old(choices).remaining
                &&& filled ==> final(choices).inner@ == old(choices).inner@
                &&& !filled ==> final(choices).inner@.len() == CHOICE_COUNT && all_valid(
                    final(choices).inner@,
                )
            }
        },
{
    if choices.remaining == 0 {
        *game_state = GameState::Game;
        return (Vec::new(), None);
    }
    if choices.inner.len() == 0 {
        choices.randomize(CHOICE_COUNT, rng);
    }
    match clicked {
        Some(i) => {
            if i < choices.inner.len() {
                let (buff, debuff) = choices.inner[i];
                let remaining = choices.remaining - 1;
                choices.randomize(CHOICE_COUNT, rng);
                choices.remaining = remaining;
                let mut applies: Vec<Apply> = Vec::new();
                applies.push(Apply { diff: buff, target: player });
                applies.push(Apply { diff: debuff, target: player });
                (applies, Some(UpgradeSelectedEvent))
            } else {
                (Vec::new(), None)
            }
        },
        None => (Vec::new(), None),
    }
}

/// The death screen for one frame: on a click the player starts over at full
/// strength, the score returns to zero and play resumes.
pub fn restart(
    clicked: bool,
    player: &mut Player,
    entity: Entity,
    game_state: &mut GameState,
    score: &mut Score,
) -> (r: Option<UiClickedEvent>)
    ensures
        clicked ==> {
            &&& *final(player) == new_player(entity)
            &&& *final(game_state) == GameState::Game
            &&& final(score).0 == 0
            &&& r is Some
        },
        !clicked ==> {
            &&& *final(player) == *old(player)
            &&& *final(game_state) == *old(game_state)
            &&& *final(score) == *old(score)
            &&& r is None
        },
{
    if !clicked {
        return None;
    }
    *player = spawn(entity);
    *game_state = GameState::Game;
    score.0 = 0;
    Some(UiClickedEvent)
}

} // verus!
