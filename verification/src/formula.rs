//! Tunable gameplay numbers: generation weights, item baselines and
//! variances. Kept in one place so the balance of the game is visible at
//! a glance.

use vstd::prelude::*;

verus! {

/// Weighted-choice table for terrain, out of 1000: chance of an empty
/// tile versus a tree.
pub const EMPTY_TILE_WEIGHT: u32 = 610;

pub const TREE_TILE_WEIGHT: u32 = 390;

/// Out of a total weight of roughly 1000 per empty tile: chance that no
/// monster spawns there.
pub const NO_MONSTER_WEIGHT: u32 = 970;

/// Weight of each regular monster kind (five kinds share the monster
/// budget equally).
pub const MONSTER_KIND_WEIGHT: u32 = 6;

/// Weight of the rare companion NPC spawn.
pub const NPC_WEIGHT: u32 = 2;

/// Out of a total weight of roughly 1000 per empty, monster-free tile:
/// chance that no item spawns there.
pub const NO_ITEM_WEIGHT: u32 = 1000;

pub const DOSE_WEIGHT: u32 = 8;

pub const STRONG_DOSE_WEIGHT: u32 = 3;

pub const CARDINAL_DOSE_WEIGHT: u32 = 2;

pub const DIAGONAL_DOSE_WEIGHT: u32 = 2;

pub const FOOD_WEIGHT: u32 = 5;

/// Baseline mind-state gain of a plain dose.
pub const DOSE_MIND: i32 = 72;

/// A plain dose's gain varies by at most this much either way.
pub const DOSE_MIND_VARIANCE: i32 = 5;

pub const DOSE_TOLERANCE: i32 = 1;

pub const STRONG_DOSE_MIND: i32 = 130;

pub const STRONG_DOSE_MIND_VARIANCE: i32 = 15;

pub const STRONG_DOSE_TOLERANCE: i32 = 2;

pub const CARDINAL_DOSE_MIND: i32 = 95;

pub const CARDINAL_DOSE_MIND_VARIANCE: i32 = 10;

pub const CARDINAL_DOSE_TOLERANCE: i32 = 1;

pub const DIAGONAL_DOSE_MIND: i32 = 95;

pub const DIAGONAL_DOSE_MIND_VARIANCE: i32 = 10;

pub const DIAGONAL_DOSE_TOLERANCE: i32 = 1;

/// Food restores a little mind state and costs no will.
pub const FOOD_MIND: i32 = 10;

/// Starting willpower of a fresh player.
pub const PLAYER_STARTING_WILL: i32 = 2;

/// Mind state a fresh player starts at.
pub const PLAYER_STARTING_MIND: i32 = 20;

/// Mind state and will are clamped into this symmetric range.
pub const STAT_LIMIT: i32 = 1000;

} // verus!
