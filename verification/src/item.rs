//! Items lying in the world or carried in the player's inventory.

use vstd::prelude::*;

verus! {

/// Closed set of consumable kinds.
#[derive(Clone, Copy, PartialEq, Eq, Structural, Debug, Hash)]
pub enum Kind {
    Dose,
    StrongDose,
    CardinalDose,
    DiagonalDose,
    Food,
}

/// Effect a consumable applies when used.
#[derive(Clone, Copy, PartialEq, Eq, Structural, Debug)]
pub enum Modifier {
    /// Doses: raise the mind state, build tolerance.
    Intoxication { state_of_mind: i32, tolerance_increase: i32 },
    /// Food and similar: plain attribute changes.
    Attribute { will: i32, state_of_mind: i32 },
}

/// One item: its kind and the (possibly randomised) effect payload.
#[derive(Clone, Copy, PartialEq, Eq, Structural, Debug)]
pub struct Item {
    pub kind: Kind,
    pub modifier: Modifier,
}

} // verus!
