//! The byte layout of a vector tile.
//!
//! A tile is a run of layer frames. Each frame is a name length (one byte),
//! the name, a geometry length (two bytes, little-endian) and the geometry.
//! A trailing frame that is cut short ends the run and is dropped.
//!
//! A layer's geometry is a run of features. Each feature is a vertex count
//! (one byte, at least three) and that many vertices, each an `x` and a `y`
//! of two little-endian bytes. A feature with fewer than three vertices, or
//! one that is cut short, makes the whole layer undecodable.
use vstd::prelude::*;

use crate::tile::ShaderVertex;

verus! {

/// A two-byte little-endian unsigned integer.
pub open spec fn le16(lo: u8, hi: u8) -> int {
    lo as int + 256 * (hi as int)
}

/// Length of the first complete frame of `b`, or 0 where there is none.
pub open spec fn frame_len(b: Seq<u8>) -> int {
    if b.len() < 1 {
        0
    } else {
        let n = b[0] as int;
        if b.len() < n + 3 {
            0
        } else {
            let end = n + 3 + le16(b[n + 1], b[n + 2]);
            if b.len() < end {
                0
            } else {
                end
            }
        }
    }
}

/// The (name, geometry) byte strings of the complete frames of `b`, in order.
pub open spec fn frames(b: Seq<u8>) -> Seq<(Seq<u8>, Seq<u8>)>
    decreases b.len(),
{
    let e = frame_len(b);
    if e <= 0 {
        seq![]
    } else {
        let n = b[0] as int;
        seq![(b.subrange(1, n + 1), b.subrange(n + 3, e))] + frames(b.subrange(e, b.len() as int))
    }
}

/// One frame of a tile, not yet decoded.
#[derive(Clone, Debug)]
pub struct LayerFrame {
    pub name: Vec<u8>,
    pub geometry: Vec<u8>,
}

impl View for LayerFrame {
    type V = (Seq<u8>, Seq<u8>);

    open spec fn view(&self) -> (Seq<u8>, Seq<u8>) {
        (self.name@, self.geometry@)
    }
}

pub open spec fn frame_views(s: Seq<LayerFrame>) -> Seq<(Seq<u8>, Seq<u8>)> {
    s.map_values(|f: LayerFrame| f@)
}

/// Copies `b[start..end]`.
fn copy_range(b: &[u8], start: usize, end: usize) -> (r: Vec<u8>)
    requires
        start <= end <= b@.len(),
    ensures
        r@ == b@.subrange(start as int, end as int),
{
    let mut r: Vec<u8> = Vec::new();
    let mut i: usize = start;
    while i < end
        invariant
            start <= i <= end <= b@.len(),
            r@ == b@.subrange(start as int, i as int),
        decreases end - i,
    {
        r.push(b[i]);
        i = i + 1;
        assert(r@ =~= b@.subrange(start as int, i as int));
    }
    r
}

/// Splits a tile into its complete frames.
pub fn parse_frames(b: &[u8]) -> (r: Vec<LayerFrame>)
    ensures
        frame_views(r@) == frames(b@),
        forall|i: int| 0 <= i < r@.len() ==> r@[i].geometry@.len() <= 0xffff,
{
    let mut out: Vec<LayerFrame> = Vec::new();
    let mut pos: usize = 0;
    assert(b@.subrange(0, b@.len() as int) =~= b@);
    assert(frame_views(out@) + frames(b@) =~= frames(b@));
    while pos < b.len()
        invariant
            pos <= b@.len(),
            frames(b@) == frame_views(out@) + frames(b@.subrange(pos as int, b@.len() as int)),
            forall|i: int| 0 <= i < out@.len() ==> out@[i].geometry@.len() <= 0xffff,
        decreases b@.len() - pos,
    {
        let ghost rest = b@.subrange(pos as int, b@.len() as int);
        let n = b[pos] as usize;
        if b.len() - pos < n + 3 {
            assert(frames(rest) == Seq::<(Seq<u8>, Seq<u8>)>::empty());
            assert(frame_views(out@) + frames(rest) =~= frame_views(out@));
            return out;
        }
        let glen = b[pos + n + 1] as usize + 256 * (b[pos + n + 2] as usize);
        if b.len() - pos - n - 3 < glen {
            assert(frames(rest) == Seq::<(Seq<u8>, Seq<u8>)>::empty());
            assert(frame_views(out@) + frames(rest) =~= frame_views(out@));
            return out;
        }
        let end = pos + n + 3 + glen;
        let name = copy_range(b, pos + 1, pos + 1 + n);
        let geometry = copy_range(b, pos + n + 3, end);
        let frame = LayerFrame { name, geometry };
        proof {
            assert(frame_len(rest) == end - pos);
            assert(rest.subrange(1, n + 1) =~= b@.subrange(pos + 1, pos + 1 + n));
            assert(rest.subrange(n + 3, end - pos) =~= b@.subrange(pos + n + 3, end as int));
            assert(rest.subrange(end - pos, rest.len() as int) =~= b@.subrange(
                end as int,
                b@.len() as int,
            ));
            assert(frames(rest) == seq![frame@] + frames(
                b@.subrange(end as int, b@.len() as int),
            ));
        }
        let ghost before = out@;
        out.push(frame);
        assert(frame_views(out@) =~= frame_views(before).push(frame@));
        assert(frame_views(out@) + frames(b@.subrange(end as int, b@.len() as int))
            =~= frame_views(before) + (seq![frame@] + frames(b@.subrange(end as int, b@.len() as int))));
        pos = end;
    }
    assert(b@.subrange(pos as int, b@.len() as int) =~= Seq::<u8>::empty());
    assert(frame_views(out@) + frames(Seq::<u8>::empty()) =~= frame_views(out@));
    out
}

/// The vertex whose four bytes start at `k`.
pub open spec fn vertex_at(p: Seq<u8>, k: int) -> ShaderVertex {
    ShaderVertex { x: le16(p[k], p[k + 1]) as u16, y: le16(p[k + 2], p[k + 3]) as u16 }
}

/// The `n` vertices whose bytes start at `start`.
pub open spec fn ring_at(p: Seq<u8>, start: int, n: int) -> Seq<ShaderVertex> {
    Seq::new(n as nat, |i: int| vertex_at(p, start + 4 * i))
}

/// The features of a layer's geometry, each as its ring of vertices; `None`
/// where the geometry is malformed.
pub open spec fn decode_geometry(p: Seq<u8>) -> Option<Seq<Seq<ShaderVertex>>>
    decreases p.len(),
{
    if p.len() == 0 {
        Some(seq![])
    } else {
        let n = p[0] as int;
        if n < 3 || p.len() < 1 + 4 * n {
            None
        } else {
            match decode_geometry(p.subrange(1 + 4 * n, p.len() as int)) {
                Some(rest) => Some(seq![ring_at(p, 1, n)] + rest),
                None => None,
            }
        }
    }
}

pub open spec fn prepend_features(
    a: Seq<Seq<ShaderVertex>>,
    o: Option<Seq<Seq<ShaderVertex>>>,
) -> Option<Seq<Seq<ShaderVertex>>> {
    match o {
        Some(r) => Some(a + r),
        None => None,
    }
}

/// The rings of a sequence of features.
pub open spec fn feature_views(s: Seq<Vec<ShaderVertex>>) -> Seq<Seq<ShaderVertex>> {
    s.map_values(|f: Vec<ShaderVertex>| f@)
}

/// Decodes a layer's geometry into its features.
pub fn decode_features(p: &[u8]) -> (r: Option<Vec<Vec<ShaderVertex>>>)
    ensures
        match r {
            Some(fs) => decode_geometry(p@) == Some(feature_views(fs@)),
            None => decode_geometry(p@) is None,
        },
        r matches Some(fs) ==> fs@.len() <= p@.len() && forall|i: int|
            0 <= i < fs@.len() ==> 3 <= #[trigger] fs@[i]@.len() <= 255,
{
    let mut out: Vec<Vec<ShaderVertex>> = Vec::new();
    let mut pos: usize = 0;
    assert(p@.subrange(0, p@.len() as int) =~= p@);
    assert(feature_views(out@) =~= Seq::<Seq<ShaderVertex>>::empty());
    assert(prepend_features(feature_views(out@), decode_geometry(p@)) =~= decode_geometry(p@)) by {
        if decode_geometry(p@) is Some {
            assert(feature_views(out@) + decode_geometry(p@)->0 =~= decode_geometry(p@)->0);
        }
    }
    while pos < p.len()
        invariant
            pos <= p@.len(),
            out@.len() <= pos,
            forall|i: int| 0 <= i < out@.len() ==> 3 <= #[trigger] out@[i]@.len() <= 255,
            decode_geometry(p@) == prepend_features(
                feature_views(out@),
                decode_geometry(p@.subrange(pos as int, p@.len() as int)),
            ),
        decreases p@.len() - pos,
    {
        let ghost rest = p@.subrange(pos as int, p@.len() as int);
        let n = p[pos] as usize;
        if n < 3 || p.len() - pos - 1 < 4 * n {
            assert(decode_geometry(rest) is None);
            return None;
        }
        let mut ring: Vec<ShaderVertex> = Vec::new();
        assert(p@.len() == p.len());
        let mut j: usize = 0;
        while j < n
            invariant
                j <= n <= 255,
                pos + 1 + 4 * n <= p@.len() <= usize::MAX,
                ring@ =~= ring_at(p@, pos + 1, j as int),
            decreases n - j,
        {
            let k = pos + 1 + 4 * j;
            let v = ShaderVertex {
                x: p[k] as u16 + 256 * (p[k + 1] as u16),
                y: p[k + 2] as u16 + 256 * (p[k + 3] as u16),
            };
            ring.push(v);
            j = j + 1;
            assert(ring@ =~= ring_at(p@, pos + 1, j as int));
        }
        let end = pos + 1 + 4 * n;
        proof {
            assert(rest.subrange(1 + 4 * n, rest.len() as int) =~= p@.subrange(
                end as int,
                p@.len() as int,
            ));
            assert(ring_at(rest, 1, n as int) =~= ring_at(p@, pos + 1, n as int));
        }
        let ghost before = out@;
        out.push(ring);
        proof {
            assert(feature_views(out@) =~= feature_views(before).push(ring@));
            let tail = decode_geometry(p@.subrange(end as int, p@.len() as int));
            if tail is Some {
                assert(feature_views(before) + (seq![ring@] + tail->0) =~= feature_views(out@)
                    + tail->0);
            }
        }
        pos = end;
    }
    assert(p@.subrange(pos as int, p@.len() as int) =~= Seq::<u8>::empty());
    assert(feature_views(out@) + Seq::<Seq<ShaderVertex>>::empty() =~= feature_views(out@));
    Some(out)
}

} // verus!
