//! Text-metric data the rendering layer queries.

use vstd::prelude::*;

verus! {

/// Glyph metrics of the active font: everything the layout code needs
/// to place tiles and text.
#[derive(Clone, Copy, PartialEq, Eq, Structural, Debug)]
pub struct Metrics {
    pub tile_width_px: i32,
}

impl Metrics {
    /// Width of one tile in pixels.
    pub fn tile_width_px(&self) -> (r: i32)
        ensures
            r == self.tile_width_px,
    {
        self.tile_width_px
    }
}

} // verus!
