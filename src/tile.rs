use std::collections::hash_map::DefaultHasher;
use std::hash::Hasher;
use vstd::prelude::*;
use vstd::std_specs::hash::DefaultHasherAdditionalSpecFns;
use crate::cube::CubeCoordinate;

verus! {

/// A grid cell occupied by a tile. Two tiles are the same cell when their
/// `x` and `y` agree: on the grid plane `z` follows from them.
#[derive(Clone, Copy, Debug)]
pub struct Tile {
    pub position: CubeCoordinate,
}

/// Where a tile's picture lies in the sprite atlas: its offset and size in
/// atlas units. Each component is kept as the bit pattern of an IEEE-754
/// single-precision number (what `f32::to_bits` gives); the library compares,
/// hashes and packs these words and never does arithmetic on them.
#[derive(Clone, Copy, Debug, PartialEq, Eq, Structural, Hash)]
pub struct TileSprite {
    pub offset_x: u32,
    pub offset_y: u32,
    pub size_x: u32,
    pub size_y: u32,
}

/// The terrain a tile map's sprites depict.
#[derive(Clone, Copy, Debug, PartialEq, Eq, Structural)]
pub enum TileMapTilesKind {
    Grass,
    Water,
    Dirt,
}

impl Default for TileMapTilesKind {
    fn default() -> (r: TileMapTilesKind)
        ensures
            r == TileMapTilesKind::Grass,
    {
        TileMapTilesKind::Grass
    }
}

impl Tile {
    /// The cell's identity: its first two cube components.
    pub open spec fn key(self) -> (i32, i32) {
        (self.position.x, self.position.y)
    }
}

impl PartialEq for Tile {
    fn eq(&self, other: &Tile) -> (r: bool)
        ensures
            r == (self.key() == other.key()),
    {
        self.position.x == other.position.x && self.position.y == other.position.y
    }
}

impl vstd::std_specs::cmp::PartialEqSpecImpl for Tile {
    open spec fn obeys_eq_spec() -> bool {
        true
    }

    open spec fn eq_spec(&self, other: &Tile) -> bool {
        self.key() == other.key()
    }
}

/// The `n` low-order bytes of `v`, least significant first.
pub open spec fn le_bytes(v: nat, n: nat) -> Seq<u8>
    decreases n,
{
    if n == 0 {
        Seq::empty()
    } else {
        seq![(v % 256) as u8] + le_bytes(v / 256, (n - 1) as nat)
    }
}

/// The two's-complement word of an `i32`, as an unsigned number.
pub open spec fn i32_word(v: i32) -> nat {
    if v >= 0 {
        v as nat
    } else {
        (v + 0x1_0000_0000) as nat
    }
}

/// The bytes that identify one stored pair: the tile's `x` and `y`, then the
/// sprite's offset and size words, four little-endian bytes each.
pub open spec fn pair_bytes(tile: Tile, sprite: TileSprite) -> Seq<u8> {
    le_bytes(i32_word(tile.position.x), 4) + le_bytes(i32_word(tile.position.y), 4)
        + le_bytes(sprite.offset_x as nat, 4) + le_bytes(sprite.offset_y as nat, 4)
        + le_bytes(sprite.size_x as nat, 4) + le_bytes(sprite.size_y as nat, 4)
}

/// The fingerprint of one pair: std's default hasher fed the pair's bytes in
/// a single write.
pub open spec fn spec_pair_fingerprint(tile: Tile, sprite: TileSprite) -> u64 {
    DefaultHasher::spec_finish(seq![pair_bytes(tile, sprite)])
}

/// Appends the `n` low-order bytes of `v` to `out`, least significant first.
pub(crate) fn push_le_bytes(out: &mut Vec<u8>, v: u64, n: usize)
    ensures
        final(out)@ == old(out)@ + le_bytes(v as nat, n as nat),
{
    let mut rest: u64 = v;
    let mut i: usize = 0;
    while i < n
        invariant
            i <= n,
            old(out)@ + le_bytes(v as nat, n as nat) == out@ + le_bytes(rest as nat, (n - i) as nat),
        decreases n - i,
    {
        let b: u8 = (rest % 256) as u8;
        let ghost before = out@;
        out.push(b);
        proof {
            let tail = le_bytes((rest / 256) as nat, (n - i - 1) as nat);
            assert(le_bytes(rest as nat, (n - i) as nat) == seq![b] + tail);
            assert(before + (seq![b] + tail) == before.push(b) + tail);
        }
        rest = rest / 256;
        i = i + 1;
    }
    assert(le_bytes(rest as nat, 0) == Seq::<u8>::empty());
    assert(out@ + Seq::<u8>::empty() == out@);
}

fn word_of_i32(v: i32) -> (r: u64)
    ensures
        r as nat == i32_word(v),
{
    if v >= 0 {
        v as u64
    } else {
        (v as i64 + 0x1_0000_0000i64) as u64
    }
}

/// The bytes of `pair_bytes`, built in a buffer.
fn encode_pair(tile: &Tile, sprite: &TileSprite) -> (r: Vec<u8>)
    ensures
        r@ == pair_bytes(*tile, *sprite),
{
    let mut out: Vec<u8> = Vec::new();
    push_le_bytes(&mut out, word_of_i32(tile.position.x), 4);
    push_le_bytes(&mut out, word_of_i32(tile.position.y), 4);
    push_le_bytes(&mut out, sprite.offset_x as u64, 4);
    push_le_bytes(&mut out, sprite.offset_y as u64, 4);
    push_le_bytes(&mut out, sprite.size_x as u64, 4);
    push_le_bytes(&mut out, sprite.size_y as u64, 4);
    assert(out@ == pair_bytes(*tile, *sprite));
    out
}

/// Fingerprint of one (tile, sprite) pair; it depends on the tile's `x` and
/// `y` and on the four sprite words, nothing else.
pub fn pair_fingerprint(tile: &Tile, sprite: &TileSprite) -> (r: u64)
    ensures
        r == spec_pair_fingerprint(*tile, *sprite),
{
    let bytes = encode_pair(tile, sprite);
    let mut hasher = DefaultHasher::new();
    hasher.write(bytes.as_slice());
    assert(hasher@ == seq![pair_bytes(*tile, *sprite)]);
    hasher.finish()
}

} // verus!
