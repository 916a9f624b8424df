use vstd::prelude::*;

verus! {

/// Address of a tile in the world tiling scheme: zoom level and column/row.
#[derive(Clone, Copy, Debug, PartialEq, Eq, Hash, Structural)]
pub struct TileCoords {
    pub z: u8,
    pub x: u32,
    pub y: u32,
}

impl TileCoords {
    pub fn new(z: u8, x: u32, y: u32) -> (r: TileCoords)
        ensures
            r.z == z && r.x == x && r.y == y,
    {
        TileCoords { z, x, y }
    }
}

} // verus!
