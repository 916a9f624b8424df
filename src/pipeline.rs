//! The tessellation pipeline: from the bytes of a tile to finished layers.
use vstd::prelude::*;
use vstd::utf8::encode_utf8;

use crate::container::{
    decode_features, decode_geometry, frame_views, frames, parse_frames, LayerFrame,
};
use crate::coords::TileCoords;
use crate::tessellation::{mesh_features, tessellable, tessellate, tessellated_buffer};
use crate::tile::{layer_models, LayerModel, OverAlignedVertexBuffer, StoredLayer};

verus! {

/// What the pipeline is asked for: a tile and the names of the layers to keep.
#[derive(Clone, Debug)]
pub struct TileRequest {
    pub coords: TileCoords,
    pub layers: Vec<String>,
}

/// The requested layer names, as character sequences.
pub open spec fn name_views(names: Seq<String>) -> Seq<Seq<char>> {
    names.map_values(|s: String| s@)
}

/// A layer that has been picked out of a tile but not tessellated.
#[derive(Clone, Debug)]
pub struct RawLayer {
    pub name: String,
    pub geometry: Vec<u8>,
}

/// The first of `names` whose UTF-8 encoding is `raw`.
pub open spec fn requested_name(names: Seq<Seq<char>>, raw: Seq<u8>) -> Option<Seq<char>>
    decreases names.len(),
{
    if names.len() == 0 {
        None
    } else {
        let m = requested_name(names.drop_last(), raw);
        if m is Some {
            m
        } else if encode_utf8(names.last()) == raw {
            Some(names.last())
        } else {
            None
        }
    }
}

/// The layers that the frames `fs` yield, in frame order: a frame whose name
/// is requested and whose geometry decodes gives one layer; the others give
/// nothing.
pub open spec fn finished_layers(
    coords: TileCoords,
    names: Seq<Seq<char>>,
    fs: Seq<(Seq<u8>, Seq<u8>)>,
) -> Seq<LayerModel>
    decreases fs.len(),
{
    if fs.len() == 0 {
        seq![]
    } else {
        let prev = finished_layers(coords, names, fs.drop_last());
        let f = fs.last();
        match requested_name(names, f.0) {
            None => prev,
            Some(name) => match decode_geometry(f.1) {
                None => prev,
                Some(rings) => prev.push(
                    LayerModel {
                        coords,
                        name,
                        buffer: tessellated_buffer(rings),
                        feature_indices: mesh_features(rings),
                    },
                ),
            },
        }
    }
}

/// The layers that processing `bytes` for `request` hands to the processor.
pub open spec fn processed_layers(request: TileRequest, bytes: Seq<u8>) -> Seq<LayerModel> {
    finished_layers(request.coords, name_views(request.layers@), frames(bytes))
}

/// Receives each layer that the pipeline finishes.
pub trait PipelineProcessor {
    /// The layers received so far, in order.
    spec fn finished(&self) -> Seq<LayerModel>;

    fn layer_tesselation_finished(
        &mut self,
        coords: &TileCoords,
        buffer: OverAlignedVertexBuffer,
        feature_indices: Vec<u32>,
        layer_data: RawLayer,
    )
        ensures
            final(self).finished() == old(self).finished().push(
                LayerModel {
                    coords: *coords,
                    name: layer_data.name@,
                    buffer: buffer@,
                    feature_indices: feature_indices@,
                },
            ),
    ;
}

/// A processor that keeps every finished layer.
#[derive(Debug, Default)]
pub struct HeadlessPipelineProcessor {
    pub layers: Vec<StoredLayer>,
}

impl HeadlessPipelineProcessor {
    pub fn new() -> (r: HeadlessPipelineProcessor)
        ensures
            r.layers@.len() == 0,
    {
        HeadlessPipelineProcessor { layers: Vec::new() }
    }
}

impl PipelineProcessor for HeadlessPipelineProcessor {
    open spec fn finished(&self) -> Seq<LayerModel> {
        layer_models(self.layers@)
    }

    fn layer_tesselation_finished(
        &mut self,
        coords: &TileCoords,
        buffer: OverAlignedVertexBuffer,
        feature_indices: Vec<u32>,
        layer_data: RawLayer,
    ) {
        let layer = StoredLayer {
            coords: *coords,
            layer_name: layer_data.name,
            buffer,
            feature_indices,
        };
        let ghost before = self.layers@;
        self.layers.push(layer);
        assert(layer_models(self.layers@) =~= layer_models(before).push(layer@));
    }
}

/// Whether two byte strings are equal.
fn bytes_equal(a: &[u8], b: &[u8]) -> (r: bool)
    ensures
        r == (a@ == b@),
{
    if a.len() != b.len() {
        return false;
    }
    let mut i: usize = 0;
    while i < a.len()
        invariant
            i <= a@.len() == b@.len(),
            a@.take(i as int) == b@.take(i as int),
        decreases a@.len() - i,
    {
        if a[i] != b[i] {
            assert(a@[i as int] != b@[i as int]);
            return false;
        }
        i = i + 1;
        assert(a@.take(i as int) =~= a@.take(i - 1).push(a@[i - 1]));
        assert(b@.take(i as int) =~= b@.take(i - 1).push(b@[i - 1]));
    }
    assert(a@.take(i as int) =~= a@);
    assert(b@.take(i as int) =~= b@);
    true
}

/// The position of the first of `names` whose UTF-8 encoding is `raw`.
fn find_requested(names: &Vec<String>, raw: &Vec<u8>) -> (r: Option<usize>)
    ensures
        match r {
            Some(k) => k < names@.len() && requested_name(name_views(names@), raw@) == Some(
                names@[k as int]@,
            ),
            None => requested_name(name_views(names@), raw@) is None,
        },
{
    let ghost all = name_views(names@);
    let mut found: Option<usize> = None;
    let mut j: usize = 0;
    assert(all.take(0) =~= Seq::<Seq<char>>::empty());
    while j < names.len()
        invariant
            all == name_views(names@),
            j <= names@.len(),
            match found {
                Some(k) => k < j && requested_name(all.take(j as int), raw@) == Some(
                    names@[k as int]@,
                ),
                None => requested_name(all.take(j as int), raw@) is None,
            },
        decreases names@.len() - j,
    {
        assert(all.take(j + 1).drop_last() =~= all.take(j as int));
        assert(all.take(j + 1).last() == names@[j as int]@);
        if found.is_none() {
            let s = names[j].as_str();
            let b = s.as_bytes();
            if bytes_equal(b, raw.as_slice()) {
                found = Some(j);
            }
        }
        j = j + 1;
    }
    assert(all.take(j as int) =~= all);
    found
}

/// Runs the pipeline on the bytes of one tile: splits them into frames,
/// keeps the requested layers, decodes and tessellates each, and hands each
/// one that decodes to `processor`, in frame order.
pub fn process<P: PipelineProcessor>(request: &TileRequest, data: &[u8], processor: &mut P)
    ensures
        final(processor).finished() == old(processor).finished() + processed_layers(
            *request,
            data@,
        ),
{
    let ghost names = name_views(request.layers@);
    let ghost init = processor.finished();
    let layer_frames = parse_frames(data);
    let ghost fs = frame_views(layer_frames@);
    let mut i: usize = 0;
    assert(fs.take(0) =~= Seq::<(Seq<u8>, Seq<u8>)>::empty());
    assert(init + Seq::<LayerModel>::empty() =~= init);
    while i < layer_frames.len()
        invariant
            names == name_views(request.layers@),
            fs == frame_views(layer_frames@),
            fs == frames(data@),
            i <= fs.len(),
            forall|q: int| 0 <= q < layer_frames@.len() ==> layer_frames@[q].geometry@.len() <= 0xffff,
            processor.finished() == init + finished_layers(request.coords, names, fs.take(i as int)),
        decreases fs.len() - i,
    {
        let frame: &LayerFrame = &layer_frames[i];
        let ghost pre = processor.finished();
        proof {
            assert(fs.take(i + 1).drop_last() =~= fs.take(i as int));
            assert(fs.take(i + 1).last() == frame@);
        }
        match find_requested(&request.layers, &frame.name) {
            None => {},
            Some(k) => {
                match decode_features(frame.geometry.as_slice()) {
                    None => {},
                    Some(rings) => {
                        let (buffer, feature_indices) = tessellate(&rings);
                        let layer_data = RawLayer {
                            name: request.layers[k].clone(),
                            geometry: frame.geometry.clone(),
                        };
                        processor.layer_tesselation_finished(
                            &request.coords,
                            buffer,
                            feature_indices,
                            layer_data,
                        );
                        assert(init + finished_layers(request.coords, names, fs.take(i + 1))
                            =~= pre.push(processor.finished().last()));
                    },
                }
            },
        }
        i = i + 1;
    }
    assert(fs.take(i as int) =~= fs);
}

/// Whether a frame yields a layer: its name is requested and its geometry
/// decodes.
pub open spec fn accepted(names: Seq<Seq<char>>, f: (Seq<u8>, Seq<u8>)) -> bool {
    requested_name(names, f.0) is Some && decode_geometry(f.1) is Some
}

/// The number of frames that yield a layer.
pub open spec fn accepted_count(names: Seq<Seq<char>>, fs: Seq<(Seq<u8>, Seq<u8>)>) -> nat
    decreases fs.len(),
{
    if fs.len() == 0 {
        0
    } else {
        accepted_count(names, fs.drop_last()) + if accepted(names, fs.last()) {
            1nat
        } else {
            0nat
        }
    }
}

proof fn lemma_requested_name_is_requested(names: Seq<Seq<char>>, raw: Seq<u8>)
    ensures
        requested_name(names, raw) matches Some(n) ==> names.contains(n) && encode_utf8(n) == raw,
    decreases names.len(),
{
    if names.len() > 0 {
        lemma_requested_name_is_requested(names.drop_last(), raw);
        if requested_name(names.drop_last(), raw) is Some {
            let n = requested_name(names.drop_last(), raw)->0;
            let k = choose|k: int| 0 <= k < names.drop_last().len() && names.drop_last()[k] == n;
            assert(names[k] == n);
        } else if encode_utf8(names.last()) == raw {
            assert(names[names.len() - 1] == names.last());
        }
    }
}

/// The processor hears of exactly the frames whose name is requested and
/// whose geometry decodes, once each: every layer it receives carries a
/// requested name whose encoding is the frame's name and the tile's
/// coordinate, and it receives as many layers as there are such frames.
pub proof fn lemma_only_requested_decodable_layers(
    coords: TileCoords,
    names: Seq<Seq<char>>,
    fs: Seq<(Seq<u8>, Seq<u8>)>,
)
    ensures
        finished_layers(coords, names, fs).len() == accepted_count(names, fs),
        forall|k: int|
            0 <= k < finished_layers(coords, names, fs).len() ==> names.contains(
                #[trigger] finished_layers(coords, names, fs)[k].name,
            ) && finished_layers(coords, names, fs)[k].coords == coords,
    decreases fs.len(),
{
    if fs.len() > 0 {
        lemma_only_requested_decodable_layers(coords, names, fs.drop_last());
        lemma_requested_name_is_requested(names, fs.last().0);
        let prev = finished_layers(coords, names, fs.drop_last());
        assert forall|k: int| 0 <= k < finished_layers(coords, names, fs).len() implies names.contains(
            #[trigger] finished_layers(coords, names, fs)[k].name,
        ) && finished_layers(coords, names, fs)[k].coords == coords by {
            if k < prev.len() {
                assert(finished_layers(coords, names, fs)[k] == prev[k]);
            }
        }
    }
}

} // verus!
