//! Monsters: the enemy archetypes and the per-monster state.

use crate::point::Point;
use vstd::prelude::*;

verus! {

/// Closed set of enemy archetypes. AI and combat dispatch exhaustively
/// over this enum.
#[derive(Clone, Copy, PartialEq, Eq, Structural, Debug, Hash)]
pub enum Kind {
    Anxiety,
    Depression,
    Hunger,
    Shadows,
    Voices,
    Npc,
}

/// Total order on kinds, used for the deterministic verification sort.
/// Follows declaration order.
pub open spec fn kind_rank(k: Kind) -> int {
    match k {
        Kind::Anxiety => 0,
        Kind::Depression => 1,
        Kind::Hunger => 2,
        Kind::Shadows => 3,
        Kind::Voices => 4,
        Kind::Npc => 5,
    }
}

/// Executable counterpart of [`kind_rank`].
pub fn rank_of_kind(k: Kind) -> (r: u8)
    ensures
        r as int == kind_rank(k),
{
    match k {
        Kind::Anxiety => 0,
        Kind::Depression => 1,
        Kind::Hunger => 2,
        Kind::Shadows => 3,
        Kind::Voices => 4,
        Kind::Npc => 5,
    }
}

/// Bonus a companion NPC grants the player. `Victory` is reserved for the
/// scripted victory NPC and is never rolled by the world generator.
#[derive(Clone, Copy, PartialEq, Eq, Structural, Debug)]
pub enum CompanionBonus {
    DoubleWillGrowth,
    HalveExhaustion,
    ExtraActionPoint,
    Victory,
}

/// One monster. Its `id` is globally unique for the whole session and
/// never reused; it survives the monster crossing chunk boundaries.
#[derive(Clone, Copy, PartialEq, Debug)]
pub struct Monster {
    pub id: u64,
    pub kind: Kind,
    pub position: Point,
    pub dead: bool,
    pub companion_bonus: Option<CompanionBonus>,
}

impl Monster {
    pub fn new(kind: Kind, position: Point, id: u64) -> (m: Monster)
        ensures
            m.kind == kind,
            m.position == position,
            m.id == id,
            !m.dead,
            m.companion_bonus is None,
    {
        Monster { id, kind, position, dead: false, companion_bonus: None }
    }
}

} // verus!
