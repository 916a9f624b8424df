use vstd::prelude::*;

use crate::coords::TileCoords;

verus! {

/// One vertex of a tessellated mesh, in tile-local units.
#[derive(Clone, Copy, Debug, PartialEq, Eq, Structural)]
pub struct ShaderVertex {
    pub x: u16,
    pub y: u16,
}

/// A vertex/index buffer whose lengths are padded up to the alignment that
/// the GPU backend's binding rules ask for. The logical lengths are kept
/// beside the padded ones.
#[derive(Clone, Debug)]
pub struct OverAlignedVertexBuffer {
    pub vertices: Vec<ShaderVertex>,
    pub indices: Vec<u32>,
    pub usable_vertices: usize,
    pub usable_indices: usize,
}

/// Mathematical model of an [`OverAlignedVertexBuffer`].
pub struct BufferModel {
    pub vertices: Seq<ShaderVertex>,
    pub indices: Seq<u32>,
    pub usable_vertices: nat,
    pub usable_indices: nat,
}

impl View for OverAlignedVertexBuffer {
    type V = BufferModel;

    open spec fn view(&self) -> BufferModel {
        BufferModel {
            vertices: self.vertices@,
            indices: self.indices@,
            usable_vertices: self.usable_vertices as nat,
            usable_indices: self.usable_indices as nat,
        }
    }
}

/// A tessellated layer of one tile, ready for upload.
#[derive(Clone, Debug)]
pub struct StoredLayer {
    pub coords: TileCoords,
    pub layer_name: String,
    pub buffer: OverAlignedVertexBuffer,
    /// For each emitted triangle, the index of the feature it came from.
    pub feature_indices: Vec<u32>,
}

/// Mathematical model of a [`StoredLayer`].
pub struct LayerModel {
    pub coords: TileCoords,
    pub name: Seq<char>,
    pub buffer: BufferModel,
    pub feature_indices: Seq<u32>,
}

impl View for StoredLayer {
    type V = LayerModel;

    open spec fn view(&self) -> LayerModel {
        LayerModel {
            coords: self.coords,
            name: self.layer_name@,
            buffer: self.buffer@,
            feature_indices: self.feature_indices@,
        }
    }
}

/// The models of a sequence of layers, in order.
pub open spec fn layer_models(layers: Seq<StoredLayer>) -> Seq<LayerModel> {
    layers.map_values(|l: StoredLayer| l@)
}

#[derive(Clone, Copy, Debug, PartialEq, Eq, Structural)]
pub enum TileStatus {
    Pending,
    Success,
    Failed,
}

/// A processed tile: its layers in the order the pipeline emitted them.
#[derive(Clone, Debug)]
pub struct StoredTile {
    pub coords: TileCoords,
    pub layers: Vec<StoredLayer>,
    pub status: TileStatus,
}

impl StoredTile {
    /// A tile whose layers were all processed.
    pub fn success(coords: TileCoords, layers: Vec<StoredLayer>) -> (r: StoredTile)
        ensures
            r.coords == coords,
            r.layers == layers,
            r.status == TileStatus::Success,
    {
        StoredTile { coords, layers, status: TileStatus::Success }
    }

    /// A tile that has been asked for and not yet processed.
    pub fn pending(coords: TileCoords) -> (r: StoredTile)
        ensures
            r.coords == coords,
            r.layers@.len() == 0,
            r.status == TileStatus::Pending,
    {
        StoredTile { coords, layers: Vec::new(), status: TileStatus::Pending }
    }

    /// A tile whose processing failed.
    pub fn failed(coords: TileCoords) -> (r: StoredTile)
        ensures
            r.coords == coords,
            r.layers@.len() == 0,
            r.status == TileStatus::Failed,
    {
        StoredTile { coords, layers: Vec::new(), status: TileStatus::Failed }
    }
}

} // verus!
