use vstd::prelude::*;
use crate::tile::{Tile, TileSprite};
use crate::tile_store::TileStore;

verus! {

/// The GPU-side form of a tile map, built once per change of its contents.
///
/// `vertices` holds one `(x, y, instance)` triple per tile, in the store's
/// order. `lookup` holds the texels of a one-dimensional lookup texture of
/// `width` texels, one per tile: the sprite's offset and size words. Texel
/// `i` belongs to the tile whose vertex carries instance index `i`.
pub struct TilePacking {
    pub vertices: Vec<i32>,
    pub lookup: Vec<u32>,
    pub width: u16,
}

/// The widest lookup texture that can be described.
pub const MAX_LOOKUP_WIDTH: usize = 65535;

/// The vertex triple of entry `i` of `s` is `(x, y, i)`.
pub open spec fn vertices_match(v: Seq<i32>, s: Seq<(Tile, TileSprite)>) -> bool {
    &&& v.len() == 3 * s.len()
    &&& forall|i: int|
        0 <= i < s.len() ==> {
            &&& #[trigger] v[3 * i] == s[i].0.position.x
            &&& v[3 * i + 1] == s[i].0.position.y
            &&& v[3 * i + 2] == i
        }
}

/// Texel `i` of the lookup texture holds the sprite words of entry `i`.
pub open spec fn lookup_matches(l: Seq<u32>, s: Seq<(Tile, TileSprite)>) -> bool {
    &&& l.len() == 4 * s.len()
    &&& forall|i: int|
        0 <= i < s.len() ==> {
            &&& #[trigger] l[4 * i] == s[i].1.offset_x
            &&& l[4 * i + 1] == s[i].1.offset_y
            &&& l[4 * i + 2] == s[i].1.size_x
            &&& l[4 * i + 3] == s[i].1.size_y
        }
}

impl TilePacking {
    /// The packing is exactly the one of the entries `s`.
    pub open spec fn packs(&self, s: Seq<(Tile, TileSprite)>) -> bool {
        &&& vertices_match(self.vertices@, s)
        &&& lookup_matches(self.lookup@, s)
        &&& self.width == s.len()
    }

    /// The number of instances to draw: one per tile.
    pub fn instance_count(&self) -> (r: usize)
        ensures
            r == self.width,
    {
        self.width as usize
    }
}

/// Packs the store's tiles, in its order, into vertex triples and lookup
/// texels. There is none when the store holds more tiles than a lookup
/// texture can be wide.
pub fn pack_tiles(store: &TileStore) -> (r: Option<TilePacking>)
    ensures
        r is Some <==> store@.len() <= MAX_LOOKUP_WIDTH,
        r is Some ==> r->0.packs(store@),
{
    let tiles = store.tiles();
    let n = tiles.len();
    if n > MAX_LOOKUP_WIDTH {
        return None;
    }
    let mut vertices: Vec<i32> = Vec::new();
    let mut lookup: Vec<u32> = Vec::new();
    let mut i: usize = 0;
    while i < n
        invariant
            n == tiles@.len(),
            n <= MAX_LOOKUP_WIDTH,
            i <= n,
            vertices_match(vertices@, tiles@.take(i as int)),
            lookup_matches(lookup@, tiles@.take(i as int)),
        decreases n - i,
    {
        let (tile, sprite) = tiles[i];
        let ghost old_v = vertices@;
        let ghost old_l = lookup@;
        let ghost prev = tiles@.take(i as int);
        vertices.push(tile.position.x);
        vertices.push(tile.position.y);
        vertices.push(i as i32);
        lookup.push(sprite.offset_x);
        lookup.push(sprite.offset_y);
        lookup.push(sprite.size_x);
        lookup.push(sprite.size_y);
        proof {
            let s = tiles@.take(i as int + 1);
            assert forall|k: int| 0 <= k < s.len() implies {
                &&& #[trigger] vertices@[3 * k] == s[k].0.position.x
                &&& vertices@[3 * k + 1] == s[k].0.position.y
                &&& vertices@[3 * k + 2] == k
            } by {
                assert(s[k] == tiles@[k]);
                if k < i {
                    assert(prev[k] == tiles@[k]);
                    assert(old_v[3 * k] == prev[k].0.position.x);
                    assert(vertices@[3 * k] == old_v[3 * k]);
                    assert(vertices@[3 * k + 1] == old_v[3 * k + 1]);
                    assert(vertices@[3 * k + 2] == old_v[3 * k + 2]);
                }
            }
            assert forall|k: int| 0 <= k < s.len() implies {
                &&& #[trigger] lookup@[4 * k] == s[k].1.offset_x
                &&& lookup@[4 * k + 1] == s[k].1.offset_y
                &&& lookup@[4 * k + 2] == s[k].1.size_x
                &&& lookup@[4 * k + 3] == s[k].1.size_y
            } by {
                assert(s[k] == tiles@[k]);
                if k < i {
                    assert(prev[k] == tiles@[k]);
                    assert(old_l[4 * k] == prev[k].1.offset_x);
                    assert(lookup@[4 * k] == old_l[4 * k]);
                    assert(lookup@[4 * k + 1] == old_l[4 * k + 1]);
                    assert(lookup@[4 * k + 2] == old_l[4 * k + 2]);
                    assert(lookup@[4 * k + 3] == old_l[4 * k + 3]);
                }
            }
        }
        i = i + 1;
    }
    assert(tiles@.take(n as int) == tiles@);
    Some(TilePacking { vertices, lookup, width: n as u16 })
}

} // verus!
