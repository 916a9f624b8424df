//! Fan tessellation of feature rings into padded vertex/index buffers.
use vstd::prelude::*;

use crate::container::feature_views;
use crate::tile::{BufferModel, OverAlignedVertexBuffer, ShaderVertex};

verus! {

/// Buffers are padded to a multiple of this many entries.
pub const BUFFER_ALIGNMENT: usize = 4;

/// The entries needed to bring a length of `n` up to the alignment.
pub open spec fn padding(n: nat) -> nat {
    ((4 - (n % 4) as int) % 4) as nat
}

/// The indices of the fan over the first `n` vertices of a ring whose first
/// vertex sits at `base`: the triangles `(base, base+k-1, base+k)`.
pub open spec fn fan(base: int, n: int) -> Seq<u32>
    decreases n,
{
    if n < 3 {
        seq![]
    } else {
        fan(base, n - 1) + seq![base as u32, (base + n - 2) as u32, (base + n - 1) as u32]
    }
}

/// The vertices of all rings, one after the other.
pub open spec fn mesh_vertices(fs: Seq<Seq<ShaderVertex>>) -> Seq<ShaderVertex>
    decreases fs.len(),
{
    if fs.len() == 0 {
        seq![]
    } else {
        mesh_vertices(fs.drop_last()) + fs.last()
    }
}

/// The triangle indices of all rings.
pub open spec fn mesh_indices(fs: Seq<Seq<ShaderVertex>>) -> Seq<u32>
    decreases fs.len(),
{
    if fs.len() == 0 {
        seq![]
    } else {
        mesh_indices(fs.drop_last()) + fan(
            mesh_vertices(fs.drop_last()).len() as int,
            fs.last().len() as int,
        )
    }
}

/// For each triangle, the index of the feature it belongs to.
pub open spec fn mesh_features(fs: Seq<Seq<ShaderVertex>>) -> Seq<u32>
    decreases fs.len(),
{
    if fs.len() == 0 {
        seq![]
    } else {
        mesh_features(fs.drop_last()) + Seq::new(
            (fs.last().len() - 2) as nat,
            |k: int| (fs.len() - 1) as u32,
        )
    }
}

pub open spec fn zero_vertex() -> ShaderVertex {
    ShaderVertex { x: 0, y: 0 }
}

/// The padded buffer of a set of rings.
pub open spec fn tessellated_buffer(fs: Seq<Seq<ShaderVertex>>) -> BufferModel {
    let v = mesh_vertices(fs);
    let i = mesh_indices(fs);
    BufferModel {
        vertices: v + Seq::new(padding(v.len()), |k: int| zero_vertex()),
        indices: i + Seq::new(padding(i.len()), |k: int| 0u32),
        usable_vertices: v.len(),
        usable_indices: i.len(),
    }
}

/// Rings that the tessellator takes: at least a triangle each, with at most
/// as many vertices as a count byte holds, and not too many of them.
pub open spec fn tessellable(fs: Seq<Seq<ShaderVertex>>) -> bool {
    &&& fs.len() <= 0x10000
    &&& forall|i: int| 0 <= i < fs.len() ==> 3 <= #[trigger] fs[i].len() <= 255
}

/// Tessellates each ring as a fan and pads both buffers to the alignment.
/// Returns the buffer and, for each triangle, its feature's index.
pub fn tessellate(features: &Vec<Vec<ShaderVertex>>) -> (r: (OverAlignedVertexBuffer, Vec<u32>))
    requires
        tessellable(feature_views(features@)),
    ensures
        r.0@ == tessellated_buffer(feature_views(features@)),
        r.1@ == mesh_features(feature_views(features@)),
{
    let ghost fs = feature_views(features@);
    let mut vertices: Vec<ShaderVertex> = Vec::new();
    let mut indices: Vec<u32> = Vec::new();
    let mut feature_indices: Vec<u32> = Vec::new();
    let mut i: usize = 0;
    assert(fs.take(0) =~= Seq::<Seq<ShaderVertex>>::empty());
    while i < features.len()
        invariant
            fs == feature_views(features@),
            tessellable(fs),
            i <= fs.len(),
            vertices@.len() <= 255 * i,
            vertices@ == mesh_vertices(fs.take(i as int)),
            indices@ == mesh_indices(fs.take(i as int)),
            feature_indices@ == mesh_features(fs.take(i as int)),
        decreases fs.len() - i,
    {
        let ring = &features[i];
        let n = ring.len();
        assert(ring@ == fs[i as int]);
        let base = vertices.len();
        let ghost pre = fs.take(i as int);
        let ghost next = fs.take(i + 1);
        assert(next.drop_last() =~= pre);
        assert(next.last() == fs[i as int]);
        let mut j: usize = 0;
        while j < n
            invariant
                j <= n <= 255,
                n == ring@.len(),
                base == mesh_vertices(pre).len(),
                base <= 255 * i,
                i < 0x10000,
                vertices@ == mesh_vertices(pre) + ring@.take(j as int),
            decreases n - j,
        {
            vertices.push(ring[j]);
            j = j + 1;
            assert(vertices@ =~= mesh_vertices(pre) + ring@.take(j as int));
        }
        assert(ring@.take(n as int) =~= ring@);
        let b = base as u32;
        let mut k: usize = 2;
        let ghost idx0 = indices@;
        assert(fan(base as int, 2) =~= Seq::<u32>::empty());
        assert(idx0 + fan(base as int, 2) =~= idx0);
        while k < n
            invariant
                2 <= k <= n <= 255,
                base <= 255 * 0x10000,
                b == base,
                indices@ == idx0 + fan(base as int, k as int),
            decreases n - k,
        {
            let kk = k as u32;
            indices.push(b);
            indices.push(b + kk - 1);
            indices.push(b + kk);
            k = k + 1;
            assert(indices@ =~= idx0 + fan(base as int, k as int));
        }
        let f = i as u32;
        let mut t: usize = 0;
        let ghost fi0 = feature_indices@;
        while t < n - 2
            invariant
                t <= n - 2,
                3 <= n,
                f == i,
                feature_indices@ == fi0 + Seq::new(t as nat, |q: int| f),
            decreases n - 2 - t,
        {
            feature_indices.push(f);
            t = t + 1;
            assert(feature_indices@ =~= fi0 + Seq::new(t as nat, |q: int| f));
        }
        assert(Seq::new((n - 2) as nat, |q: int| f) =~= Seq::new(
            (next.last().len() - 2) as nat,
            |q: int| (next.len() - 1) as u32,
        ));
        i = i + 1;
    }
    assert(fs.take(i as int) =~= fs);
    let usable_vertices = vertices.len();
    let usable_indices = indices.len();
    let ghost v0 = vertices@;
    let ghost i0 = indices@;
    let vpad = (BUFFER_ALIGNMENT - usable_vertices % BUFFER_ALIGNMENT) % BUFFER_ALIGNMENT;
    let ipad = (BUFFER_ALIGNMENT - usable_indices % BUFFER_ALIGNMENT) % BUFFER_ALIGNMENT;
    let mut p: usize = 0;
    while p < vpad
        invariant
            p <= vpad < 4,
            vertices@ == v0 + Seq::new(p as nat, |q: int| zero_vertex()),
        decreases vpad - p,
    {
        vertices.push(ShaderVertex { x: 0, y: 0 });
        p = p + 1;
        assert(vertices@ =~= v0 + Seq::new(p as nat, |q: int| zero_vertex()));
    }
    p = 0;
    while p < ipad
        invariant
            p <= ipad < 4,
            indices@ == i0 + Seq::new(p as nat, |q: int| 0u32),
        decreases ipad - p,
    {
        indices.push(0);
        p = p + 1;
        assert(indices@ =~= i0 + Seq::new(p as nat, |q: int| 0u32));
    }
    (OverAlignedVertexBuffer { vertices, indices, usable_vertices, usable_indices }, feature_indices)
}

/// Tessellating the same rings twice gives buffers of the same padded and
/// logical lengths; the padded lengths are aligned and exceed the logical
/// ones by less than the alignment.
pub proof fn lemma_padding_deterministic(a: Seq<Seq<ShaderVertex>>, b: Seq<Seq<ShaderVertex>>)
    requires
        a == b,
    ensures
        tessellated_buffer(a).vertices.len() == tessellated_buffer(b).vertices.len(),
        tessellated_buffer(a).indices.len() == tessellated_buffer(b).indices.len(),
        tessellated_buffer(a).usable_vertices == tessellated_buffer(b).usable_vertices,
        tessellated_buffer(a).usable_indices == tessellated_buffer(b).usable_indices,
        tessellated_buffer(a).vertices.len() % 4 == 0,
        tessellated_buffer(a).indices.len() % 4 == 0,
        tessellated_buffer(a).usable_vertices <= tessellated_buffer(a).vertices.len()
            < tessellated_buffer(a).usable_vertices + 4,
        tessellated_buffer(a).usable_indices <= tessellated_buffer(a).indices.len()
            < tessellated_buffer(a).usable_indices + 4,
{
}

} // verus!
