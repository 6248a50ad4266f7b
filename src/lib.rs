//! Progression and combat-resolution core of a top-down survival game.
//!
//! Lengths are fixed-point: one unit is a thousandth of a pixel. Durations are
//! nanoseconds. Fractions (chances, buff magnitudes) are integers over a stated
//! denominator.
use vstd::prelude::*;

mod rng;
pub mod geometry;
pub mod attribute;
pub mod buff;
pub mod projectile;
pub mod hostile;
pub mod loot;
pub mod player;
pub mod ui;

verus! {

/// Opaque identifier of an entity in the entity store.
#[derive(Clone, Copy, Debug, PartialEq, Eq, Structural, Hash)]
pub struct Entity(pub u64);

/// The overall game mode, which decides which parts of the simulation run.
#[derive(Clone, Copy, Debug, PartialEq, Eq, Structural, Hash)]
pub enum GameState {
    Game,
    LevelUp,
    Dead,
}

/// Whether `list` holds `e`.
pub fn contains_entity(list: &Vec<Entity>, e: Entity) -> (r: bool)
    ensures
        r == list@.contains(e),
{
    let mut i: usize = 0;
    while i < list.len()
        invariant
            0 <= i <= list@.len(),
            forall|j: int| 0 <= j < i ==> list@[j] != e,
        decreases list@.len() - i,
    {
        if list[i] == e {
            return true;
        }
        i = i + 1;
    }
    false
}

} // verus!
