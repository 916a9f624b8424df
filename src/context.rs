use vstd::prelude::*;

use crate::renderer::Renderer;
use crate::repository::TileRepository;

verus! {

/// Size of the surface being drawn, in pixels.
#[derive(Clone, Copy, Debug, PartialEq, Eq, Structural)]
pub struct WindowSize {
    pub width: u32,
    pub height: u32,
}

/// The style, seen only through the source layers it draws.
#[derive(Clone, Debug)]
pub struct Style {
    pub source_layers: Vec<String>,
}

/// The world state: the surface size and the tiles on hand.
pub struct World {
    pub window_size: WindowSize,
    pub tile_repository: TileRepository,
}

impl World {
    pub fn new(window_size: WindowSize) -> (r: World)
        ensures
            r.window_size == window_size,
            r.tile_repository.wf(),
            r.tile_repository@ == Map::<crate::coords::TileCoords, crate::tile::StoredTile>::empty(),
    {
        World { window_size, tile_repository: TileRepository::new() }
    }
}

/// Everything a frame reads and writes, owned by one map.
pub struct MapContext {
    pub style: Style,
    pub world: World,
    pub renderer: Renderer,
}

} // verus!
