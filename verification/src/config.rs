//! The numbers of the game.

use vstd::prelude::*;
use crate::coordinate::RectDirection;
use crate::object::Tower;

verus! {

/// The factor between the price of an inventory entry and the price of its
/// first upgrade.
pub const UPGRADE_COST_MODIFIER: u64 = 2;

/// The factor by which an upgrade multiplies a tower's power.
pub const UPGRADE_MODIFIER: u64 = 2;

/// The factor by which an upgrade multiplies the price of an entry.
pub const UPGRADE_PRICE_FACTOR: u64 = 4;

/// Ticks between two shots of a tower.
pub const TOWER_COOLDOWN: u64 = 4;

/// Monsters that the spawners may introduce in all.
pub const TOTAL_SPAWN: u64 = 20;

/// Treasure that the player starts with.
pub const INITIAL_TREASURE: u64 = 100;

/// Price of each initial inventory entry.
pub const INITIAL_TOWER_COST: u64 = 20;

pub const MAP_WIDTH: usize = 12;

pub const MAP_HEIGHT: usize = 8;

/// Hit points, speed and power of a monster that a spawner introduces.
pub const MONSTER_HP: u64 = 10;

pub const MONSTER_SPEED: u64 = 1;

pub const MONSTER_POWER: u64 = 1;

/// Reward carried by what a defeated monster leaves behind.
pub const DROP_REWARD: u64 = 10;

/// A ready tower of the given level that faces `direction`; its power
/// equals its level.
pub fn build_tower(level: u64, direction: RectDirection) -> (t: Tower)
    ensures
        t == (Tower { power: level, cooldown: TOWER_COOLDOWN, count: 0, direction }),
{
    Tower::new(level, TOWER_COOLDOWN, direction)
}

/// The flow feature that the tile on cell `(x, y)` starts with. The
/// features form one path from the spawner on `(4, 0)` to the collector on
/// `(10, 0)`.
pub open spec fn spec_flow_feature(x: usize, y: usize) -> Option<RectDirection> {
    if x == 10 && 1 <= y <= 7 {
        Some(RectDirection::Top)
    } else if y == 0 && x == 4 {
        Some(RectDirection::Bottom)
    } else if y == 1 && (x == 3 || x == 4) {
        Some(RectDirection::Left)
    } else if (y == 1 || y == 2) && x == 2 {
        Some(RectDirection::Bottom)
    } else if y == 3 && 2 <= x <= 6 {
        Some(RectDirection::Right)
    } else if (y == 3 || y == 4) && x == 7 {
        Some(RectDirection::Bottom)
    } else if y == 5 && 4 <= x <= 7 {
        Some(RectDirection::Left)
    } else if (y == 5 || y == 6) && x == 3 {
        Some(RectDirection::Bottom)
    } else if y == 7 && 3 <= x <= 9 {
        Some(RectDirection::Right)
    } else {
        None
    }
}

#[verifier::when_used_as_spec(spec_flow_feature)]
pub fn flow_feature(x: usize, y: usize) -> (f: Option<RectDirection>)
    ensures
        f == spec_flow_feature(x, y),
{
    if x == 10 && 1 <= y && y <= 7 {
        Some(RectDirection::Top)
    } else if y == 0 && x == 4 {
        Some(RectDirection::Bottom)
    } else if y == 1 && (x == 3 || x == 4) {
        Some(RectDirection::Left)
    } else if (y == 1 || y == 2) && x == 2 {
        Some(RectDirection::Bottom)
    } else if y == 3 && 2 <= x && x <= 6 {
        Some(RectDirection::Right)
    } else if (y == 3 || y == 4) && x == 7 {
        Some(RectDirection::Bottom)
    } else if y == 5 && 4 <= x && x <= 7 {
        Some(RectDirection::Left)
    } else if (y == 5 || y == 6) && x == 3 {
        Some(RectDirection::Bottom)
    } else if y == 7 && 3 <= x && x <= 9 {
        Some(RectDirection::Right)
    } else {
        None
    }
}

} // verus!
