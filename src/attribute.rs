use vstd::prelude::*;

use crate::buff::Choices;
use crate::projectile::ProjectileSpeed;
use crate::GameState;

verus! {

/// Chance that a hit spawns a ricocheting duplicate, in thousandths.
#[derive(Clone, Copy, Debug, PartialEq, Eq, Structural)]
pub struct DupChance(pub i32);

/// Walking speed, in thousandths of a pixel per frame.
#[derive(Clone, Copy, Debug, PartialEq, Eq, Structural)]
pub struct MoveSpeed(pub i32);

/// Health taken by one hit.
#[derive(Clone, Copy, Debug, PartialEq, Eq, Structural)]
pub struct Damage(pub i32);

#[derive(Clone, Copy, Debug, PartialEq, Eq, Structural)]
pub struct MaxHealth(pub i32);

#[derive(Clone, Copy, Debug, PartialEq, Eq, Structural)]
pub struct Health(pub i32);

/// Time between two attacks, in nanoseconds.
#[derive(Clone, Copy, Debug, PartialEq, Eq, Structural)]
pub struct AttackSpeed(pub u64);

/// Distance past which a projectile is removed, in thousandths of a pixel.
#[derive(Clone, Copy, Debug, PartialEq, Eq, Structural)]
pub struct AttackRange(pub i32);

/// Countdown that gates attacks; its duration follows `AttackSpeed`.
#[derive(Clone, Copy, Debug, PartialEq, Eq, Structural)]
pub struct AttackSpeedTimer(pub Timer);

#[derive(Clone, Copy, Debug, PartialEq, Eq, Structural)]
pub struct Experience {
    pub current: u32,
    pub cap: u32,
}

/// Raised once for each level gained.
#[derive(Clone, Copy, Debug, PartialEq, Eq, Structural)]
pub struct LevelUpEvent();

#[derive(Clone, Copy, Debug, PartialEq, Eq, Structural)]
pub enum TimerMode {
    Once,
    Repeating,
}

/// A countdown measured in nanoseconds.
///
/// A `Once` timer stops at its duration and stays finished until reset; a
/// `Repeating` one wraps around and counts how often it elapsed in the last tick.
/// The state is held as plain values, so that the cadence logic can be verified;
/// each tick is computed by bevy's own `Timer`, except where bevy would panic (a
/// repeating timer of zero duration) or where a finished `Once` timer makes bevy's
/// tick a no-op.
#[derive(Clone, Copy, Debug, PartialEq, Eq, Structural)]
pub struct Timer {
    pub duration: u64,
    pub elapsed: u64,
    pub mode: TimerMode,
    pub finished: bool,
    pub times_finished_this_tick: u32,
}

/// The full attribute set of a combat-capable entity.
#[derive(Clone, Copy, Debug, PartialEq, Eq, Structural)]
pub struct Attributes {
    pub health: Health,
    pub max_health: MaxHealth,
    pub damage: Damage,
    pub move_speed: MoveSpeed,
    pub attack_speed: AttackSpeed,
    pub attack_speed_timer: AttackSpeedTimer,
    pub attack_range: AttackRange,
    pub dup_chance: DupChance,
    pub projectile_speed: ProjectileSpeed,
}

/// Amount by which the experience cap grows at each level.
pub const CAP_GROWTH: u32 = 100;

/// Baseline attack interval: half a second.
pub const BASE_ATTACK_SPEED: u64 = 500_000_000;

/// What a tick of bevy's timer leaves when, from a timer that has not finished, its
/// elapsed time reaches `e`: the new elapsed time, whether it finished, and how
/// many laps it counted (modulo 2^32, as bevy counts them in a `u32`).
pub open spec fn tick_result(duration: u64, e: int, mode: TimerMode) -> (u64, bool, u32) {
    if e < duration {
        (e as u64, false, 0u32)
    } else if mode == TimerMode::Once {
        (duration, true, 1u32)
    } else {
        let laps = (e / (duration as int)) % 0x1_0000_0000;
        ((e - duration * laps) as u64, true, laps as u32)
    }
}

/// Relies on `Timer::tick` of bevy_time (with `Timer::new`, `Timer::set_elapsed`,
/// and the getters `elapsed`, `finished`, `times_finished_this_tick`): a fresh timer
/// of `duration` and `mode`, set to `elapsed` and ticked by `delta`, ends as
/// `tick_result` says. bevy panics on a repeating timer of zero duration, which
/// `requires` leaves out; the sum stays within `u64` nanoseconds.
#[verifier::external_body]
fn bevy_tick(duration: u64, elapsed: u64, mode: TimerMode, delta: u64) -> (r: (u64, bool, u32))
    requires
        elapsed + delta <= u64::MAX,
        mode == TimerMode::Repeating ==> duration > 0,
    ensures
        r == tick_result(duration, elapsed + delta, mode),
{
    let mode = match mode {
        TimerMode::Once => bevy::time::TimerMode::Once,
        TimerMode::Repeating => bevy::time::TimerMode::Repeating,
    };
    let mut t = bevy::time::Timer::new(std::time::Duration::from_nanos(duration), mode);
    t.set_elapsed(std::time::Duration::from_nanos(elapsed));
    t.tick(std::time::Duration::from_nanos(delta));
    (t.elapsed().as_nanos() as u64, t.finished(), t.times_finished_this_tick())
}

impl Timer {
    /// The timer after `delta` more nanoseconds. A finished `Once` timer only forgets
    /// its last lap; a repeating timer of zero duration lapses once per tick; the
    /// elapsed time saturates at the largest `u64`.
    pub open spec fn ticked(self, delta: u64) -> Timer {
        if self.mode == TimerMode::Once && self.finished {
            Timer { times_finished_this_tick: 0, ..self }
        } else if self.mode == TimerMode::Repeating && self.duration == 0 {
            Timer { elapsed: 0, finished: true, times_finished_this_tick: 1, ..self }
        } else {
            let e = if self.elapsed + delta > u64::MAX {
                u64::MAX as int
            } else {
                self.elapsed + delta
            };
            let r = tick_result(self.duration, e, self.mode);
            Timer { elapsed: r.0, finished: r.1, times_finished_this_tick: r.2, ..self }
        }
    }

    pub fn new(duration: u64, mode: TimerMode) -> (r: Timer)
        ensures
            r == (Timer { duration, elapsed: 0, mode, finished: false, times_finished_this_tick: 0 }),
    {
        Timer { duration, elapsed: 0, mode, finished: false, times_finished_this_tick: 0 }
    }

    /// Changes the duration and keeps the progress within the current interval.
    pub fn set_duration(&mut self, duration: u64)
        ensures
            *final(self) == (Timer { duration, ..*old(self) }),
    {
        self.duration = duration;
    }

    pub fn tick(&mut self, delta: u64)
        ensures
            *final(self) == old(self).ticked(delta),
    {
        if self.mode == TimerMode::Once && self.finished {
            self.times_finished_this_tick = 0;
            return;
        }
        if self.mode == TimerMode::Repeating && self.duration == 0 {
            self.elapsed = 0;
            self.finished = true;
            self.times_finished_this_tick = 1;
            return;
        }
        let step: u64 = if delta > u64::MAX - self.elapsed {
            u64::MAX - self.elapsed
        } else {
            delta
        };
        let (elapsed, finished, laps) = bevy_tick(self.duration, self.elapsed, self.mode, step);
        self.elapsed = elapsed;
        self.finished = finished;
        self.times_finished_this_tick = laps;
    }

    pub fn finished(&self) -> (r: bool)
        ensures
            r == self.finished,
    {
        self.finished
    }

    /// Whether the last tick made the timer elapse at least once.
    pub fn just_finished(&self) -> (r: bool)
        ensures
            r == (self.times_finished_this_tick > 0),
    {
        self.times_finished_this_tick > 0
    }

    /// Starts the current interval over.
    pub fn reset(&mut self)
        ensures
            *final(self) == (Timer {
                elapsed: 0,
                finished: false,
                times_finished_this_tick: 0,
                ..*old(self)
            }),
    {
        self.elapsed = 0;
        self.finished = false;
        self.times_finished_this_tick = 0;
    }
}

pub open spec fn common_attributes() -> Attributes {
    Attributes {
        health: Health(100),
        max_health: MaxHealth(100),
        damage: Damage(35),
        move_speed: MoveSpeed(2_500),
        attack_speed: AttackSpeed(BASE_ATTACK_SPEED),
        attack_speed_timer: AttackSpeedTimer(
            Timer {
                duration: BASE_ATTACK_SPEED,
                elapsed: 0,
                mode: TimerMode::Once,
                finished: false,
                times_finished_this_tick: 0,
            },
        ),
        attack_range: AttackRange(800_000),
        dup_chance: DupChance(100),
        projectile_speed: ProjectileSpeed(500_000),
    }
}

/// The baseline attribute set that the player and every hostile start with.
pub fn insert_common() -> (r: Attributes)
    ensures
        r == common_attributes(),
{
    Attributes {
        health: Health(100),
        max_health: MaxHealth(100),
        damage: Damage(35),
        move_speed: MoveSpeed(2_500),
        attack_speed: AttackSpeed(BASE_ATTACK_SPEED),
        attack_speed_timer: AttackSpeedTimer(Timer::new(BASE_ATTACK_SPEED, TimerMode::Once)),
        attack_range: AttackRange(800_000),
        dup_chance: DupChance(100),
        projectile_speed: ProjectileSpeed(500_000),
    }
}

/// Brings the attack timer to the current attack speed, then advances it by the
/// frame time, so that a changed attack speed counts from the very next tick.
pub fn update_timer_with_attack_speed(
    timer: &mut AttackSpeedTimer,
    attack_speed: &AttackSpeed,
    delta: u64,
)
    ensures
        final(timer).0 == (Timer { duration: attack_speed.0, ..old(timer).0 }).ticked(delta),
{
    timer.0.set_duration(attack_speed.0);
    timer.0.tick(delta);
}

/// Whether the physics step runs: only while playing.
pub open spec fn physics_runs(state: GameState) -> bool {
    state == GameState::Game
}

/// Stops or restarts all movement when the game state has just changed.
pub fn freeze_all_movement(physics_active: &mut bool, state: GameState, state_changed: bool)
    ensures
        *final(physics_active) == if state_changed {
            physics_runs(state)
        } else {
            *old(physics_active)
        },
{
    if !state_changed {
        return;
    }
    *physics_active = state == GameState::Game;
}

/// The experience after one level-up check: at most one rollover, which carries the
/// excess over and raises the cap by `CAP_GROWTH`.
pub open spec fn rolled_over(xp: Experience) -> Experience {
    if xp.current >= xp.cap {
        Experience {
            current: (xp.current - xp.cap) as u32,
            cap: if xp.cap + CAP_GROWTH > u32::MAX {
                u32::MAX
            } else {
                (xp.cap + CAP_GROWTH) as u32
            },
        }
    } else {
        xp
    }
}

/// Checks for a level-up after the experience changed. On reaching the cap the
/// experience rolls over once, one more upgrade selection is owed, and the game
/// switches to choosing upgrades. Without a change nothing is checked.
pub fn level_up(
    experience: &mut Experience,
    changed: bool,
    choices: &mut Choices,
    game_state: &mut GameState,
) -> (r: Option<LevelUpEvent>)
    ensures
        ({
            let levels = changed && old(experience).current >= old(experience).cap;
            &&& levels ==> {
                &&& *final(experience) == rolled_over(*old(experience))
                &&& r == Some(LevelUpEvent())
                &&& final(choices).remaining as int == if old(choices).remaining == u32::MAX {
                    u32::MAX as int
                } else {
                    old(choices).remaining + 1
                }
                &&& final(choices).inner@ == old(choices).inner@
                &&& *final(game_state) == GameState::LevelUp
            }
            &&& !levels ==> {
                &&& *final(experience) == *old(experience)
                &&& r is None
                &&& *final(choices) == *old(choices)
                &&& *final(game_state) == *old(game_state)
            }
        }),
{
    if !changed || experience.current < experience.cap {
        return None;
    }
    experience.current = experience.current - experience.cap;
    experience.cap = experience.cap.saturating_add(CAP_GROWTH);
    choices.remaining = choices.remaining.saturating_add(1);
    *game_state = GameState::LevelUp;
    Some(LevelUpEvent())
}

} // verus!
