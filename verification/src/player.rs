//! The player character: position, stats, inventory.

use crate::formula;
use crate::item::Item;
use crate::point::Point;
use vstd::prelude::*;

verus! {

/// Ghost model of the player.
pub struct PlayerModel {
    pub pos: Point,
    pub will: i32,
    pub mind: i32,
    pub inventory: Seq<Item>,
    pub invincible: bool,
    pub dead: bool,
}

/// The player. Unlike monsters, the player is owned by the top-level
/// state, not by a chunk: the player is always loaded.
pub struct Player {
    pub pos: Point,
    pub will: i32,
    pub mind: i32,
    pub inventory: Vec<Item>,
    pub invincible: bool,
    pub dead: bool,
}

impl View for Player {
    type V = PlayerModel;

    open spec fn view(&self) -> PlayerModel {
        PlayerModel {
            pos: self.pos,
            will: self.will,
            mind: self.mind,
            inventory: self.inventory@,
            invincible: self.invincible,
            dead: self.dead,
        }
    }
}

/// Stats stay inside the tunable limit; a dead player has no will left.
pub open spec fn player_wf(p: PlayerModel) -> bool {
    &&& 0 <= p.will <= formula::STAT_LIMIT
    &&& -formula::STAT_LIMIT <= p.mind <= formula::STAT_LIMIT
}

/// The model a fresh player starts from.
pub open spec fn spec_player_new(pos: Point, invincible: bool) -> PlayerModel {
    PlayerModel {
        pos,
        will: formula::PLAYER_STARTING_WILL,
        mind: formula::PLAYER_STARTING_MIND,
        inventory: Seq::empty(),
        invincible,
        dead: false,
    }
}

impl Player {
    pub fn new(pos: Point, invincible: bool) -> (p: Player)
        ensures
            p@ == spec_player_new(pos, invincible),
            player_wf(p@),
    {
        let p = Player {
            pos,
            will: formula::PLAYER_STARTING_WILL,
            mind: formula::PLAYER_STARTING_MIND,
            inventory: Vec::new(),
            invincible,
            dead: false,
        };
        proof {
            assert(p@.inventory =~= Seq::<Item>::empty());
        }
        p
    }
}

} // verus!
