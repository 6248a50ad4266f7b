use vstd::prelude::*;

use crate::attribute::{common_attributes, insert_common, Attributes, Experience, Health, MoveSpeed};
use crate::geometry::Pos;
use crate::hostile::{offset, offset_pos};
use crate::projectile::{aim_vector, Aim};
use crate::{Entity, GameState};

verus! {

/// The player: where it stands, its experience and its attributes.
#[derive(Clone, Copy, Debug, PartialEq, Eq, Structural)]
pub struct Player {
    pub entity: Entity,
    pub position: Pos,
    pub experience: Experience,
    pub attributes: Attributes,
}

/// Where the player starts: fifty pixels left of the origin.
pub const START_X: i32 = -50_000;

/// Experience needed for the first level.
pub const FIRST_CAP: u32 = 100;

pub open spec fn new_player(entity: Entity) -> Player {
    Player {
        entity,
        position: Pos { x: START_X, y: 0 },
        experience: Experience { current: 0, cap: FIRST_CAP },
        attributes: common_attributes(),
    }
}

/// A fresh player at the start position, without experience, with the baseline
/// attributes.
pub fn spawn(entity: Entity) -> (r: Player)
    ensures
        r == new_player(entity),
{
    Player {
        entity,
        position: Pos { x: START_X, y: 0 },
        experience: Experience { current: 0, cap: FIRST_CAP },
        attributes: insert_common(),
    }
}

/// Ends the game when the player's health, having just changed, is used up.
pub fn die(health: &Health, health_changed: bool, game_state: &mut GameState)
    ensures
        *final(game_state) == if health_changed && health.0 <= 0 {
            GameState::Dead
        } else {
            *old(game_state)
        },
{
    if health_changed && health.0 <= 0 {
        *game_state = GameState::Dead;
    }
}

/// Moves the player by its move speed along each held direction key; the position
/// stops at the edges of the plane.
pub fn move_player(position: &mut Pos, keys: Aim, speed: &MoveSpeed)
    ensures
        ({
            let (dx, dy) = aim_vector(keys);
            *final(position) == offset_pos(*old(position), dx * speed.0, dy * speed.0)
        }),
{
    let mut dx: i64 = 0;
    let mut dy: i64 = 0;
    let s: i64 = speed.0 as i64;
    if keys.left {
        dx = dx - s;
    }
    if keys.right {
        dx = dx + s;
    }
    if keys.up {
        dy = dy + s;
    }
    if keys.down {
        dy = dy - s;
    }
    proof {
        let (ax, ay) = aim_vector(keys);
        assert(dx == ax * speed.0 && dy == ay * speed.0) by (nonlinear_arith)
            requires
                ax == (if keys.right { 1int } else { 0int }) - (if keys.left { 1int } else { 0int }),
                ay == (if keys.up { 1int } else { 0int }) - (if keys.down { 1int } else { 0int }),
                dx == (if keys.right { s as int } else { 0int }) - (if keys.left { s as int } else { 0int }),
                dy == (if keys.up { s as int } else { 0int }) - (if keys.down { s as int } else { 0int }),
                s == speed.0,
        ;
    }
    *position = offset(*position, dx, dy);
}

} // verus!
