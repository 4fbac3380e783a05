use vstd::prelude::*;
use crate::cube::CubeCoordinate;
use crate::tile::{Tile, TileSprite};
use crate::tile_store::{TileStore, holds_key};

verus! {

/// The absolute value of `v`.
pub open spec fn abs(v: int) -> int {
    if v < 0 {
        -v
    } else {
        v
    }
}

/// `c` is a grid cell at most `radius` steps along each cube axis from
/// `center`.
pub open spec fn in_region(c: CubeCoordinate, center: CubeCoordinate, radius: int) -> bool {
    &&& c.on_plane()
    &&& abs(c.x - center.x) <= radius
    &&& abs(c.y - center.y) <= radius
    &&& abs(c.z - center.z) <= radius
}

/// `a` comes before `b` when ordered by `x`, then by `y`.
pub open spec fn lex_lt(a: CubeCoordinate, b: CubeCoordinate) -> bool {
    a.x < b.x || (a.x == b.x && a.y < b.y)
}

/// Cells whose offset from `center` comes before `(dx, dy)` in `x`-then-`y`
/// order.
pub open spec fn offset_before(c: CubeCoordinate, center: CubeCoordinate, dx: int, dy: int) -> bool {
    c.x - center.x < dx || (c.x - center.x == dx && c.y - center.y < dy)
}

/// How far a region's center must stay from the ends of the `i32` range so
/// that every cell of a region of any `u16` side is representable.
pub const REGION_MARGIN: i32 = 65535;

/// The cells of the hexagonal region of side `size` around `center`: every
/// cell within `size - 1` steps along each cube axis, once each, ordered by
/// `x` and then by `y`. A side of zero gives no cell.
pub fn hex_region(size: u16, center: CubeCoordinate) -> (r: Vec<CubeCoordinate>)
    requires
        center.on_plane(),
        i32::MIN + REGION_MARGIN <= center.x <= i32::MAX - REGION_MARGIN,
        i32::MIN + REGION_MARGIN <= center.y <= i32::MAX - REGION_MARGIN,
        i32::MIN + REGION_MARGIN <= center.z <= i32::MAX - REGION_MARGIN,
    ensures
        forall|i: int| 0 <= i < r@.len() ==> in_region(#[trigger] r@[i], center, size - 1),
        forall|c: CubeCoordinate| in_region(c, center, size - 1) ==> r@.contains(c),
        forall|i: int, j: int| 0 <= i < j < r@.len() ==> lex_lt(#[trigger] r@[i], #[trigger] r@[j]),
{
    let mut out: Vec<CubeCoordinate> = Vec::new();
    if size == 0 {
        return out;
    }
    let radius: i32 = size as i32 - 1;
    let mut dx: i32 = -radius;
    while dx <= radius
        invariant
            0 <= radius < REGION_MARGIN,
            radius == size - 1,
            -radius <= dx <= radius + 1,
            center.on_plane(),
            i32::MIN + REGION_MARGIN <= center.x <= i32::MAX - REGION_MARGIN,
            i32::MIN + REGION_MARGIN <= center.y <= i32::MAX - REGION_MARGIN,
            i32::MIN + REGION_MARGIN <= center.z <= i32::MAX - REGION_MARGIN,
            forall|i: int| 0 <= i < out@.len() ==> in_region(#[trigger] out@[i], center, radius as int),
            forall|i: int, j: int| 0 <= i < j < out@.len() ==> lex_lt(#[trigger] out@[i], #[trigger] out@[j]),
            forall|i: int| 0 <= i < out@.len() ==> (#[trigger] out@[i]).x - center.x < dx,
            forall|c: CubeCoordinate|
                in_region(c, center, radius as int) && c.x - center.x < dx ==> out@.contains(c),
        decreases radius + 1 - dx,
    {
        let mut dy: i32 = -radius;
        while dy <= radius
            invariant
                0 <= radius < REGION_MARGIN,
                -radius <= dx <= radius,
                -radius <= dy <= radius + 1,
                center.on_plane(),
                i32::MIN + REGION_MARGIN <= center.x <= i32::MAX - REGION_MARGIN,
                i32::MIN + REGION_MARGIN <= center.y <= i32::MAX - REGION_MARGIN,
                i32::MIN + REGION_MARGIN <= center.z <= i32::MAX - REGION_MARGIN,
                forall|i: int| 0 <= i < out@.len() ==> in_region(#[trigger] out@[i], center, radius as int),
                forall|i: int, j: int| 0 <= i < j < out@.len() ==> lex_lt(#[trigger] out@[i], #[trigger] out@[j]),
                forall|i: int| 0 <= i < out@.len() ==> offset_before(#[trigger] out@[i], center, dx as int, dy as int),
                forall|c: CubeCoordinate|
                    in_region(c, center, radius as int) && offset_before(c, center, dx as int, dy as int)
                        ==> out@.contains(c),
            decreases radius + 1 - dy,
        {
            let dz: i32 = -dx - dy;
            let ghost old_out = out@;
            if -radius <= dz && dz <= radius {
                let cell = CubeCoordinate { x: center.x + dx, y: center.y + dy, z: center.z + dz };
                out.push(cell);
                proof {
                    assert(out@ == old_out.push(cell));
                    assert forall|i: int, j: int| 0 <= i < j < out@.len() implies lex_lt(
                        #[trigger] out@[i],
                        #[trigger] out@[j],
                    ) by {
                        if j == old_out.len() {
                            assert(offset_before(old_out[i], center, dx as int, dy as int));
                        } else {
                            assert(old_out[i] == out@[i] && old_out[j] == out@[j]);
                        }
                    }
                    assert forall|c: CubeCoordinate|
                        in_region(c, center, radius as int) && offset_before(c, center, dx as int, dy + 1)
                            implies out@.contains(c) by {
                        if offset_before(c, center, dx as int, dy as int) {
                            assert(old_out.contains(c));
                            let k = choose|k: int| 0 <= k < old_out.len() && old_out[k] == c;
                            assert(out@[k] == c);
                        } else {
                            assert(c == cell);
                            assert(out@[old_out.len() as int] == cell);
                        }
                    }
                }
            } else {
                proof {
                    assert forall|c: CubeCoordinate|
                        in_region(c, center, radius as int) && offset_before(c, center, dx as int, dy + 1)
                            implies out@.contains(c) by {
                        if !offset_before(c, center, dx as int, dy as int) {
                            assert(c.z - center.z == dz);
                        }
                    }
                }
            }
            dy = dy + 1;
        }
        proof {
            assert forall|c: CubeCoordinate|
                in_region(c, center, radius as int) && c.x - center.x < dx + 1 implies out@.contains(c) by {
                assert(offset_before(c, center, dx as int, dy as int));
            }
            assert forall|i: int| 0 <= i < out@.len() implies (#[trigger] out@[i]).x - center.x < dx + 1 by {
                assert(offset_before(out@[i], center, dx as int, dy as int));
            }
        }
        dx = dx + 1;
    }
    out
}

/// A store holding every cell of the hexagonal region of side `size` around
/// `center`, each with the same sprite, in the order of `hex_region`.
pub fn create_debug_tiles(size: u16, center: CubeCoordinate, sprite: TileSprite) -> (r: TileStore)
    requires
        center.on_plane(),
        i32::MIN + REGION_MARGIN <= center.x <= i32::MAX - REGION_MARGIN,
        i32::MIN + REGION_MARGIN <= center.y <= i32::MAX - REGION_MARGIN,
        i32::MIN + REGION_MARGIN <= center.z <= i32::MAX - REGION_MARGIN,
    ensures
        r.wf(),
        forall|i: int| 0 <= i < r@.len() ==> in_region((#[trigger] r@[i]).0.position, center, size - 1),
        forall|i: int| 0 <= i < r@.len() ==> (#[trigger] r@[i]).1 == sprite,
        forall|c: CubeCoordinate| in_region(c, center, size - 1) ==> holds_key(r@, (c.x, c.y)),
{
    let cells = hex_region(size, center);
    let mut store = TileStore::new();
    let mut i: usize = 0;
    while i < cells.len()
        invariant
            i <= cells@.len(),
            store.wf(),
            store@.len() == i,
            forall|k: int| 0 <= k < i ==> (#[trigger] store@[k]) == (Tile { position: cells@[k] }, sprite),
            forall|k: int| 0 <= k < cells@.len() ==> in_region(#[trigger] cells@[k], center, size - 1),
            forall|k: int, j: int| 0 <= k < j < cells@.len() ==> lex_lt(#[trigger] cells@[k], #[trigger] cells@[j]),
        decreases cells@.len() - i,
    {
        let tile = Tile { position: cells[i] };
        proof {
            assert(in_region(cells@[i as int], center, size - 1));
            assert forall|k: int| 0 <= k < store@.len() implies (#[trigger] store@[k]).0.key() != tile.key() by {
                assert(lex_lt(cells@[k], cells@[i as int]));
            }
        }
        let r = store.insert(tile, sprite);
        assert(r is Ok);
        i = i + 1;
    }
    proof {
        assert forall|c: CubeCoordinate| in_region(c, center, size - 1) implies holds_key(store@, (c.x, c.y)) by {
            assert(cells@.contains(c));
            let k = choose|k: int| 0 <= k < cells@.len() && cells@[k] == c;
            assert(store@[k] == (Tile { position: cells@[k] }, sprite));
        }
    }
    store
}

} // verus!
