//! Plain data shared between the simulation and its host.
use vstd::prelude::*;

verus! {

/// The tiles that a world can be built from.
pub struct Tileset {
    pub tiles: Vec<Tile>,
}

/// One kind of tile.
pub struct Tile {
    pub id: u32,
}

impl Default for Tileset {
    /// A tileset without tiles.
    fn default() -> (r: Self)
        ensures
            r.tiles@ == Seq::<Tile>::empty(),
    {
        Self { tiles: vec![] }
    }
}

} // verus!
