use vstd::prelude::*;

use crate::coords::TileCoords;
use crate::tile::StoredTile;

verus! {

/// The map from coordinates to tiles that a sequence of insertions builds,
/// later entries overwriting earlier ones.
pub open spec fn tiles_map(s: Seq<StoredTile>) -> Map<TileCoords, StoredTile>
    decreases s.len(),
{
    if s.len() == 0 {
        Map::empty()
    } else {
        tiles_map(s.drop_last()).insert(s.last().coords, s.last())
    }
}

/// No two tiles share a coordinate.
pub open spec fn coords_unique(s: Seq<StoredTile>) -> bool {
    forall|i: int, j: int|
        0 <= i < s.len() && 0 <= j < s.len() && i != j ==> s[i].coords != s[j].coords
}

proof fn lemma_tiles_map_lookup(s: Seq<StoredTile>, c: TileCoords)
    requires
        coords_unique(s),
    ensures
        (forall|i: int| 0 <= i < s.len() ==> s[i].coords != c) ==> !tiles_map(s).contains_key(c),
        forall|i: int|
            0 <= i < s.len() && s[i].coords == c ==> tiles_map(s).contains_key(c)
                && tiles_map(s)[c] == s[i],
    decreases s.len(),
{
    if s.len() > 0 {
        let d = s.drop_last();
        assert(coords_unique(d));
        lemma_tiles_map_lookup(d, c);
        assert forall|i: int| 0 <= i < s.len() && s[i].coords == c implies tiles_map(s).contains_key(
            c,
        ) && tiles_map(s)[c] == s[i] by {
            if i < s.len() - 1 {
                assert(d[i] == s[i]);
            }
        }
        if forall|i: int| 0 <= i < s.len() ==> s[i].coords != c {
            assert(s[s.len() - 1].coords != c);
            assert forall|i: int| 0 <= i < d.len() implies d[i].coords != c by {
                assert(d[i] == s[i]);
            }
        }
    }
}

proof fn lemma_tiles_map_update(s: Seq<StoredTile>, i: int, t: StoredTile)
    requires
        coords_unique(s),
        0 <= i < s.len(),
        s[i].coords == t.coords,
    ensures
        coords_unique(s.update(i, t)),
        tiles_map(s.update(i, t)) == tiles_map(s).insert(t.coords, t),
    decreases s.len(),
{
    let u = s.update(i, t);
    let d = s.drop_last();
    if i == s.len() - 1 {
        assert(u.drop_last() =~= d);
        assert(tiles_map(u) =~= tiles_map(s).insert(t.coords, t));
    } else {
        assert(u.drop_last() =~= d.update(i, t));
        assert(coords_unique(d));
        lemma_tiles_map_update(d, i, t);
        assert(s.last().coords != t.coords);
        assert(tiles_map(u) =~= tiles_map(s).insert(t.coords, t));
    }
}

/// Keyed store of the latest processed tile for each coordinate.
pub struct TileRepository {
    tiles: Vec<StoredTile>,
}

impl View for TileRepository {
    type V = Map<TileCoords, StoredTile>;

    closed spec fn view(&self) -> Map<TileCoords, StoredTile> {
        tiles_map(self.tiles@)
    }
}

impl TileRepository {
    pub closed spec fn wf(&self) -> bool {
        coords_unique(self.tiles@)
    }

    pub fn new() -> (r: TileRepository)
        ensures
            r.wf(),
            r@ == Map::<TileCoords, StoredTile>::empty(),
    {
        TileRepository { tiles: Vec::new() }
    }

    /// Stores `tile` under its coordinate, replacing whatever was there.
    pub fn put_tile(&mut self, tile: StoredTile)
        requires
            old(self).wf(),
        ensures
            final(self).wf(),
            final(self)@ == old(self)@.insert(tile.coords, tile),
    {
        let mut i: usize = 0;
        while i < self.tiles.len()
            invariant
                i <= self.tiles@.len(),
                self.tiles@ == old(self).tiles@,
                coords_unique(self.tiles@),
                forall|j: int| 0 <= j < i ==> self.tiles@[j].coords != tile.coords,
            decreases self.tiles@.len() - i,
        {
            if self.tiles[i].coords == tile.coords {
                proof {
                    lemma_tiles_map_update(self.tiles@, i as int, tile);
                }
                self.tiles.set(i, tile);
                return;
            }
            i = i + 1;
        }
        let ghost s = self.tiles@;
        self.tiles.push(tile);
        assert(self.tiles@.drop_last() =~= s);
        assert(self.tiles@.last() == tile);
    }

    /// The tile stored under `coords`, if any.
    pub fn get_tile(&self, coords: &TileCoords) -> (r: Option<&StoredTile>)
        requires
            self.wf(),
        ensures
            match r {
                Some(t) => self@.contains_key(*coords) && self@[*coords] == *t,
                None => !self@.contains_key(*coords),
            },
    {
        proof {
            lemma_tiles_map_lookup(self.tiles@, *coords);
        }
        let mut i: usize = 0;
        while i < self.tiles.len()
            invariant
                i <= self.tiles@.len(),
                coords_unique(self.tiles@),
                forall|j: int| 0 <= j < i ==> self.tiles@[j].coords != *coords,
            decreases self.tiles@.len() - i,
        {
            if self.tiles[i].coords == *coords {
                proof {
                    lemma_tiles_map_lookup(self.tiles@, *coords);
                }
                return Some(&self.tiles[i]);
            }
            i = i + 1;
        }
        None
    }

    /// Number of coordinates that hold a tile.
    pub fn len(&self) -> (r: usize)
        requires
            self.wf(),
        ensures
            r == self@.len(),
    {
        proof {
            lemma_tiles_map_len(self.tiles@);
        }
        self.tiles.len()
    }
}

proof fn lemma_tiles_map_len(s: Seq<StoredTile>)
    requires
        coords_unique(s),
    ensures
        tiles_map(s).dom().finite(),
        tiles_map(s).len() == s.len(),
    decreases s.len(),
{
    if s.len() > 0 {
        let d = s.drop_last();
        assert(coords_unique(d));
        lemma_tiles_map_len(d);
        lemma_tiles_map_lookup(d, s.last().coords);
        assert forall|i: int| 0 <= i < d.len() implies d[i].coords != s.last().coords by {
            assert(d[i] == s[i]);
        }
    }
}

/// Storing a tile and then another under the same coordinate leaves the
/// second one there, whatever the first held.
pub proof fn lemma_put_overwrites(
    m: Map<TileCoords, StoredTile>,
    a: StoredTile,
    b: StoredTile,
)
    requires
        a.coords == b.coords,
    ensures
        m.insert(a.coords, a).insert(b.coords, b)[b.coords] == b,
        m.insert(a.coords, a).insert(b.coords, b) == m.insert(b.coords, b),
{
    assert(m.insert(a.coords, a).insert(b.coords, b) =~= m.insert(b.coords, b));
}

} // verus!
