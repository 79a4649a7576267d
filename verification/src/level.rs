//! Tiles: the terrain grid a chunk is made of.

use vstd::prelude::*;

verus! {

/// Terrain kind of one tile. Only `Empty` tiles are walkable.
#[derive(Clone, Copy, PartialEq, Eq, Structural, Debug, Hash)]
pub enum TileKind {
    Empty,
    Tree,
}

/// One tile of the world: its terrain kind and a cosmetic foreground
/// colour index. The colour is drawn from the throwaway stream and is
/// deliberately absent from every simulation contract: it must never
/// influence verification state.
#[derive(Clone, Copy, PartialEq, Eq, Structural, Debug)]
pub struct Tile {
    pub kind: TileKind,
    pub fg_color: u8,
}

impl Tile {
    pub fn new(kind: TileKind) -> (t: Tile)
        ensures
            t.kind == kind,
    {
        Tile { kind, fg_color: 0 }
    }
}

} // verus!
