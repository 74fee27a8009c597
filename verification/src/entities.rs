use vstd::prelude::*;

use crate::random::random_between;

verus! {

/// The ground line: bullets start here, the player stands here, and an enemy
/// whose top passes it has left the field.
pub const GROUND_Y: i64 = 4_400_000;
/// Width of a falling enemy.
pub const TARGET_WIDTH: i64 = 1_700_000;
/// Height of a falling enemy.
pub const TARGET_HEIGHT: i64 = 1_320_000;
/// Mass of a falling enemy.
pub const TARGET_MASS: i64 = 100;
/// Hit points of a fresh enemy: one bullet takes one point.
pub const TARGET_HP: i64 = 40;
/// Height at which a fresh enemy appears, above the visible field.
pub const SPAWN_Y: i64 = -1_920_000;
/// Leftmost column at which an enemy can appear.
pub const SPAWN_X_MIN: i64 = 100_000;
/// First column, to the right, at which no enemy appears.
pub const SPAWN_X_END: i64 = 5_750_000;
/// Hit points of the leading enemy.
pub const LEADER_HP: i64 = 360;
/// Column of the leading enemy.
pub const LEADER_X: i64 = 100_000;
/// Height of the leading enemy.
pub const LEADER_Y: i64 = 100_000;

/// A bullet on its way up.
#[derive(Clone, Copy, Debug, PartialEq, Eq, Structural)]
pub struct Bullet {
    pub x_pos: i64,
    pub y_pos: i64,
    /// The bullet is inside an enemy's body.
    pub is_hit_target: bool,
    /// The bullet is exploding against a living enemy.
    pub is_animated: bool,
}

impl Bullet {
    /// A bullet fired from column `x_pos`.
    pub open spec fn fired_from(x_pos: i64) -> Bullet {
        Bullet { x_pos, y_pos: GROUND_Y, is_hit_target: false, is_animated: false }
    }

    /// Fires a bullet from column `x_pos`: it starts on the ground, unmarked.
    pub fn new(x_pos: i64) -> (b: Bullet)
        ensures
            b == Bullet::fired_from(x_pos),
    {
        Bullet { x_pos, y_pos: GROUND_Y, is_hit_target: false, is_animated: false }
    }
}

/// A falling enemy.
#[derive(Clone, Copy, Debug, PartialEq, Eq, Structural)]
pub struct Target {
    pub width: i64,
    pub height: i64,
    pub mass: i64,
    pub hp: i64,
    /// Left edge.
    pub xst: i64,
    /// Top edge.
    pub yst: i64,
    pub is_still_alive: bool,
    pub is_animated: bool,
    /// When the enemy's dying animation started, in milliseconds of game time.
    pub animation_start_time: Option<u64>,
    /// When the enemy appeared, in milliseconds of game time.
    pub elapsed_time: u64,
}

impl Target {
    /// A fresh enemy appearing at column `xst` at time `now_ms`.
    pub open spec fn fresh(xst: i64, now_ms: u64) -> Target {
        Target {
            width: TARGET_WIDTH,
            height: TARGET_HEIGHT,
            mass: TARGET_MASS,
            hp: TARGET_HP,
            xst,
            yst: SPAWN_Y,
            is_still_alive: true,
            is_animated: false,
            animation_start_time: None,
            elapsed_time: now_ms,
        }
    }

    /// The columns at which an enemy may appear.
    pub open spec fn valid_spawn_column(xst: i64) -> bool {
        SPAWN_X_MIN <= xst < SPAWN_X_END
    }

    /// A fresh enemy at column `xst`, appearing at time `now_ms`.
    pub fn spawned_at(xst: i64, now_ms: u64) -> (t: Target)
        ensures
            t == Target::fresh(xst, now_ms),
    {
        Target {
            width: TARGET_WIDTH,
            height: TARGET_HEIGHT,
            mass: TARGET_MASS,
            hp: TARGET_HP,
            xst,
            yst: SPAWN_Y,
            is_still_alive: true,
            is_animated: false,
            animation_start_time: None,
            elapsed_time: now_ms,
        }
    }

    /// A fresh enemy at a random column, appearing at time `now_ms`.
    pub fn new(now_ms: u64) -> (t: Target)
        ensures
            Target::valid_spawn_column(t.xst),
            t == Target::fresh(t.xst, now_ms),
    {
        let xst = random_between(SPAWN_X_MIN, SPAWN_X_END);
        Target::spawned_at(xst, now_ms)
    }
}

/// The leading enemy, which stays in the corner of the field.
#[derive(Clone, Copy, Debug, PartialEq, Eq, Structural)]
pub struct FirstTarget {
    pub width: i64,
    pub height: i64,
    pub hp: i64,
    pub xst: i64,
    pub yst: i64,
    pub is_still_alive: bool,
    pub is_accurate_hit: bool,
    /// When the leading enemy appeared, in milliseconds of game time.
    pub elapsed_time: u64,
}

impl FirstTarget {
    /// The leading enemy as it appears at time `now_ms`.
    pub open spec fn initial(now_ms: u64) -> FirstTarget {
        FirstTarget {
            width: TARGET_WIDTH,
            height: TARGET_HEIGHT,
            hp: LEADER_HP,
            xst: LEADER_X,
            yst: LEADER_Y,
            is_still_alive: true,
            is_accurate_hit: false,
            elapsed_time: now_ms,
        }
    }

    /// The leading enemy, appearing at time `now_ms`.
    pub fn new(now_ms: u64) -> (t: FirstTarget)
        ensures
            t == FirstTarget::initial(now_ms),
    {
        FirstTarget {
            width: TARGET_WIDTH,
            height: TARGET_HEIGHT,
            hp: LEADER_HP,
            xst: LEADER_X,
            yst: LEADER_Y,
            is_still_alive: true,
            is_accurate_hit: false,
            elapsed_time: now_ms,
        }
    }
}

} // verus!
