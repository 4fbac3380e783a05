use std::collections::hash_map::DefaultHasher;
use std::hash::Hasher;
use vstd::prelude::*;
use vstd::arithmetic::div_mod::lemma_add_mod_noop;
use vstd::seq_lib::{commutative_foldl, lemma_fold_left_permutation};
use vstd::std_specs::hash::DefaultHasherAdditionalSpecFns;
use crate::tile::{
    Tile, TileSprite, le_bytes, pair_fingerprint, push_le_bytes, spec_pair_fingerprint,
};

verus! {

/// Why a tile was not stored.
#[derive(Clone, Copy, Debug, PartialEq, Eq, Structural)]
pub enum StoreError {
    /// The tile's coordinate does not satisfy `x + y + z == 0`.
    OffPlane,
    /// A tile already occupies the cell with the same `x` and `y`.
    DuplicateCoordinate,
}

/// The tiles of a map, each paired with its sprite, in insertion order.
/// No two stored tiles share a cell and every stored coordinate lies on the
/// grid plane.
pub struct TileStore {
    tiles: Vec<(Tile, TileSprite)>,
}

/// Some stored tile occupies cell `key`.
pub open spec fn holds_key(s: Seq<(Tile, TileSprite)>, key: (i32, i32)) -> bool {
    exists|i: int| 0 <= i < s.len() && (#[trigger] s[i]).0.key() == key
}

/// No two entries share a cell.
pub open spec fn keys_unique(s: Seq<(Tile, TileSprite)>) -> bool {
    forall|i: int, j: int| 0 <= i < j < s.len() ==> (#[trigger] s[i]).0.key() != (#[trigger] s[j]).0.key()
}

/// Every entry's coordinate lies on the grid plane.
pub open spec fn all_on_plane(s: Seq<(Tile, TileSprite)>) -> bool {
    forall|i: int| 0 <= i < s.len() ==> (#[trigger] s[i]).0.position.on_plane()
}

/// The step that adds one pair's fingerprint to a running total.
pub open spec fn add_fingerprint() -> spec_fn(int, (Tile, TileSprite)) -> int {
    |acc: int, e: (Tile, TileSprite)| acc + spec_pair_fingerprint(e.0, e.1)
}

/// The sum, over all entries, of their pair fingerprints.
pub open spec fn fingerprint_total(s: Seq<(Tile, TileSprite)>) -> int {
    s.fold_left(0int, add_fingerprint())
}

/// What the content hash feeds to the hasher: the fingerprint total modulo
/// 2^64 and the entry count, eight little-endian bytes each.
pub open spec fn content_hash_input(s: Seq<(Tile, TileSprite)>) -> Seq<Seq<u8>> {
    seq![le_bytes((fingerprint_total(s) % 0x1_0000_0000_0000_0000) as nat, 8) + le_bytes(s.len(), 8)]
}

/// The content hash of a sequence of entries.
pub open spec fn spec_content_hash(s: Seq<(Tile, TileSprite)>) -> u64 {
    DefaultHasher::spec_finish(content_hash_input(s))
}

impl View for TileStore {
    type V = Seq<(Tile, TileSprite)>;

    closed spec fn view(&self) -> Seq<(Tile, TileSprite)> {
        self.tiles@
    }
}

impl TileStore {
    /// The store's invariant.
    pub open spec fn wf(&self) -> bool {
        keys_unique(self@) && all_on_plane(self@)
    }

    /// An empty store.
    pub fn new() -> (r: TileStore)
        ensures
            r.wf(),
            r@ == Seq::<(Tile, TileSprite)>::empty(),
    {
        TileStore { tiles: Vec::new() }
    }

    /// The number of stored tiles.
    pub fn len(&self) -> (r: usize)
        ensures
            r == self@.len(),
    {
        self.tiles.len()
    }

    /// The stored pairs, in the order they are walked.
    pub fn tiles(&self) -> (r: &Vec<(Tile, TileSprite)>)
        ensures
            r@ == self@,
    {
        &self.tiles
    }

    /// The index of the entry at cell `(x, y)`, if any.
    pub fn find(&self, x: i32, y: i32) -> (r: Option<usize>)
        ensures
            r is None <==> !holds_key(self@, (x, y)),
            r is Some ==> r->0 < self@.len() && self@[r->0 as int].0.key() == (x, y),
    {
        let mut i: usize = 0;
        while i < self.tiles.len()
            invariant
                i <= self@.len(),
                self.tiles@ == self@,
                forall|k: int| 0 <= k < i ==> (#[trigger] self@[k]).0.key() != (x, y),
            decreases self@.len() - i,
        {
            let p = &self.tiles[i].0.position;
            if p.x == x && p.y == y {
                return Some(i);
            }
            i = i + 1;
        }
        None
    }

    /// Whether a tile occupies cell `(x, y)`.
    pub fn contains(&self, x: i32, y: i32) -> (r: bool)
        ensures
            r == holds_key(self@, (x, y)),
    {
        self.find(x, y).is_some()
    }

    /// The tile and sprite at the cell with axial coordinates `(x, y)`; the
    /// third cube component of a stored tile is `-x - y`.
    pub fn tile_at_axial(&self, x: i32, y: i32) -> (r: Option<(Tile, TileSprite)>)
        requires
            self.wf(),
        ensures
            r is None <==> !holds_key(self@, (x, y)),
            r is Some ==> self@.contains(r->0) && (r->0).0.key() == (x, y),
            r is Some ==> (r->0).0.position.z == -x - y,
    {
        match self.find(x, y) {
            None => None,
            Some(i) => {
                let e = self.tiles[i];
                assert(self@[i as int] == e);
                Some(e)
            }
        }
    }

    /// Stores `tile` with `sprite`. A coordinate off the grid plane and a cell
    /// that is already occupied are refused, and the store is left unchanged.
    pub fn insert(&mut self, tile: Tile, sprite: TileSprite) -> (r: Result<(), StoreError>)
        requires
            old(self).wf(),
        ensures
            final(self).wf(),
            !tile.position.on_plane() ==> r == Err::<(), StoreError>(StoreError::OffPlane),
            tile.position.on_plane() && holds_key(old(self)@, tile.key())
                ==> r == Err::<(), StoreError>(StoreError::DuplicateCoordinate),
            r is Err ==> final(self)@ == old(self)@,
            r is Ok <==> tile.position.on_plane() && !holds_key(old(self)@, tile.key()),
            r is Ok ==> final(self)@ == old(self)@.push((tile, sprite)),
    {
        if !tile.position.is_on_plane() {
            return Err(StoreError::OffPlane);
        }
        if self.contains(tile.position.x, tile.position.y) {
            return Err(StoreError::DuplicateCoordinate);
        }
        let ghost before = self@;
        self.tiles.push((tile, sprite));
        assert(self@ == before.push((tile, sprite)));
        assert forall|i: int, j: int| 0 <= i < j < self@.len() implies
            (#[trigger] self@[i]).0.key() != (#[trigger] self@[j]).0.key() by {
            if j == before.len() {
                assert(before[i] == self@[i]);
            }
        }
        Ok(())
    }

    /// A fingerprint of the store's contents that does not depend on the
    /// order of the entries: the pair fingerprints are summed modulo 2^64
    /// and hashed together with the entry count.
    pub fn content_hash(&self) -> (r: u64)
        ensures
            r == spec_content_hash(self@),
    {
        let mut total: u64 = 0;
        let mut i: usize = 0;
        while i < self.tiles.len()
            invariant
                i <= self@.len(),
                self.tiles@ == self@,
                total == fingerprint_total(self@.take(i as int)) % 0x1_0000_0000_0000_0000,
            decreases self@.len() - i,
        {
            let h = pair_fingerprint(&self.tiles[i].0, &self.tiles[i].1);
            proof {
                let s = self@.take(i as int + 1);
                assert(s.drop_last() == self@.take(i as int));
                assert(s.last() == self@[i as int]);
                let prev = fingerprint_total(self@.take(i as int));
                assert(fingerprint_total(s) == prev + h);
                lemma_add_mod_noop(prev, h as int, 0x1_0000_0000_0000_0000);
                assert((h as int) % 0x1_0000_0000_0000_0000 == h as int);
            }
            total = total.wrapping_add(h);
            i = i + 1;
        }
        assert(self@.take(self@.len() as int) == self@);
        let mut bytes: Vec<u8> = Vec::new();
        push_le_bytes(&mut bytes, total, 8);
        push_le_bytes(&mut bytes, self.tiles.len() as u64, 8);
        let mut hasher = DefaultHasher::new();
        hasher.write(bytes.as_slice());
        assert(hasher@ == content_hash_input(self@));
        hasher.finish()
    }
}

/// Every coordinate held by a store satisfies `x + y + z == 0`: `insert`
/// refuses one that does not, so none is ever stored.
pub proof fn lemma_stored_coordinates_on_plane(store: &TileStore, i: int)
    requires
        store.wf(),
        0 <= i < store@.len(),
    ensures
        store@[i].0.position.x + store@[i].0.position.y + store@[i].0.position.z == 0,
{
}

/// The content hash depends on the multiset of stored (tile, sprite) pairs
/// alone: two stores holding the same pairs in any order have the same hash.
pub proof fn lemma_content_hash_ignores_order(a: &TileStore, b: &TileStore)
    requires
        a@.to_multiset() == b@.to_multiset(),
    ensures
        spec_content_hash(a@) == spec_content_hash(b@),
{
    broadcast use vstd::seq_lib::group_to_multiset_ensures;

    let f = add_fingerprint();
    assert(commutative_foldl(f)) by {
        assert forall|x: (Tile, TileSprite), y: (Tile, TileSprite), v: int|
            #[trigger] f(f(v, x), y) == f(f(v, y), x) by {}
    }
    lemma_fold_left_permutation(a@, b@, f, 0int);
    vstd::seq_lib::to_multiset_len(a@);
    vstd::seq_lib::to_multiset_len(b@);
    assert(content_hash_input(a@) == content_hash_input(b@));
}

/// Inserting a tile changes what the content hash feeds to the hasher: the
/// entry count is part of the input.
pub proof fn lemma_insert_changes_hash_input(before: Seq<(Tile, TileSprite)>, tile: Tile, sprite: TileSprite)
    requires
        before.len() + 1 < 0x1_0000_0000_0000_0000,
    ensures
        content_hash_input(before.push((tile, sprite))) != content_hash_input(before),
{
    let after = before.push((tile, sprite));
    let ta = le_bytes((fingerprint_total(after) % 0x1_0000_0000_0000_0000) as nat, 8);
    let tb = le_bytes((fingerprint_total(before) % 0x1_0000_0000_0000_0000) as nat, 8);
    lemma_le_bytes_len((fingerprint_total(after) % 0x1_0000_0000_0000_0000) as nat, 8);
    lemma_le_bytes_len((fingerprint_total(before) % 0x1_0000_0000_0000_0000) as nat, 8);
    lemma_le_bytes_len(after.len(), 8);
    lemma_le_bytes_len(before.len(), 8);
    reveal_with_fuel(pow256, 9);
    lemma_le_bytes_injective(after.len(), before.len(), 8);
    let xa = ta + le_bytes(after.len(), 8);
    let xb = tb + le_bytes(before.len(), 8);
    assert(xa.subrange(8, 16) == le_bytes(after.len(), 8));
    assert(xb.subrange(8, 16) == le_bytes(before.len(), 8));
    assert(content_hash_input(after)[0] == xa);
    assert(content_hash_input(before)[0] == xb);
}

proof fn lemma_le_bytes_len(v: nat, n: nat)
    ensures
        le_bytes(v, n).len() == n,
    decreases n,
{
    if n > 0 {
        lemma_le_bytes_len(v / 256, (n - 1) as nat);
    }
}

/// Distinct numbers below 256^n have distinct n-byte encodings.
proof fn lemma_le_bytes_injective(v: nat, w: nat, n: nat)
    requires
        v != w,
        v < pow256(n),
        w < pow256(n),
    ensures
        le_bytes(v, n) != le_bytes(w, n),
    decreases n,
{
    if n > 0 {
        lemma_le_bytes_len(v / 256, (n - 1) as nat);
        lemma_le_bytes_len(w / 256, (n - 1) as nat);
        if v % 256 == w % 256 {
            assert(v / 256 != w / 256);
            assert(v / 256 < pow256((n - 1) as nat));
            assert(w / 256 < pow256((n - 1) as nat));
            lemma_le_bytes_injective(v / 256, w / 256, (n - 1) as nat);
            let a = le_bytes(v, n);
            let b = le_bytes(w, n);
            if a == b {
                assert(a.subrange(1, n as int) == le_bytes(v / 256, (n - 1) as nat));
                assert(b.subrange(1, n as int) == le_bytes(w / 256, (n - 1) as nat));
            }
        } else {
            assert(le_bytes(v, n)[0] != le_bytes(w, n)[0]);
        }
    }
}

spec fn pow256(n: nat) -> nat
    decreases n,
{
    if n == 0 {
        1
    } else {
        256 * pow256((n - 1) as nat)
    }
}

} // verus!
