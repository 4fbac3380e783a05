use hex_tiles::cube::CubeCoordinate;
use hex_tiles::tile::{Tile, TileMapTilesKind, TileSprite, pair_fingerprint};
use hex_tiles::tile_store::{StoreError, TileStore};

fn tile(x: i32, y: i32, z: i32) -> Tile {
    Tile { position: CubeCoordinate { x, y, z } }
}

fn sprite(ox: f32, oy: f32, sx: f32, sy: f32) -> TileSprite {
    TileSprite {
        offset_x: ox.to_bits(),
        offset_y: oy.to_bits(),
        size_x: sx.to_bits(),
        size_y: sy.to_bits(),
    }
}

#[test]
fn hash_scenario_empty_then_two_tiles() {
    let mut store = TileStore::new();
    let h0 = store.content_hash();
    store.insert(tile(0, 0, 0), sprite(0.0, 0.0, 0.25, 0.25)).unwrap();
    let h1 = store.content_hash();
    assert_ne!(h1, h0);
    store.insert(tile(1, -1, 0), sprite(0.0, 0.0, 0.25, 0.25)).unwrap();
    let h2 = store.content_hash();
    assert_ne!(h2, h1);
    assert_ne!(h2, h0);
    assert_eq!(store.content_hash(), h2);
    assert_eq!(store.content_hash(), h2);
}

#[test]
fn hash_ignores_insertion_order() {
    let cells = [(0, 0, 0), (1, -1, 0), (-2, 1, 1), (3, 0, -3)];
    let mut forward = TileStore::new();
    for (i, &(x, y, z)) in cells.iter().enumerate() {
        forward.insert(tile(x, y, z), sprite(i as f32, 0.5, 0.25, 0.25)).unwrap();
    }
    let mut backward = TileStore::new();
    for (i, &(x, y, z)) in cells.iter().enumerate().rev() {
        backward.insert(tile(x, y, z), sprite(i as f32, 0.5, 0.25, 0.25)).unwrap();
    }
    assert_eq!(forward.content_hash(), backward.content_hash());
}

#[test]
fn hash_changes_with_sprite_offset_and_size() {
    let mut a = TileStore::new();
    a.insert(tile(0, 0, 0), sprite(0.0, 0.0, 0.25, 0.25)).unwrap();
    let mut b = TileStore::new();
    b.insert(tile(0, 0, 0), sprite(0.25, 0.0, 0.25, 0.25)).unwrap();
    let mut c = TileStore::new();
    c.insert(tile(0, 0, 0), sprite(0.0, 0.0, 0.5, 0.25)).unwrap();
    let mut d = TileStore::new();
    d.insert(tile(1, -1, 0), sprite(0.0, 0.0, 0.25, 0.25)).unwrap();
    let hashes = [a.content_hash(), b.content_hash(), c.content_hash(), d.content_hash()];
    for i in 0..hashes.len() {
        for j in i + 1..hashes.len() {
            assert_ne!(hashes[i], hashes[j]);
        }
    }
}

#[test]
fn pair_fingerprint_depends_on_the_cell_and_sprite() {
    let s = sprite(0.0, 0.0, 0.25, 0.25);
    let a = pair_fingerprint(&tile(0, 0, 0), &s);
    assert_eq!(a, pair_fingerprint(&tile(0, 0, 0), &s));
    assert_ne!(a, pair_fingerprint(&tile(1, -1, 0), &s));
    assert_ne!(a, pair_fingerprint(&tile(0, 0, 0), &sprite(0.0, 0.0, 0.25, 0.5)));
}

#[test]
fn insert_rejects_duplicate_cell() {
    let mut store = TileStore::new();
    store.insert(tile(1, -1, 0), sprite(0.0, 0.0, 0.25, 0.25)).unwrap();
    let r = store.insert(tile(1, -1, 0), sprite(0.5, 0.5, 0.25, 0.25));
    assert_eq!(r, Err(StoreError::DuplicateCoordinate));
    assert_eq!(store.len(), 1);
    assert_eq!(store.tiles()[0].1, sprite(0.0, 0.0, 0.25, 0.25));
}

#[test]
fn insert_rejects_coordinate_off_the_plane() {
    let mut store = TileStore::new();
    let h = store.content_hash();
    let r = store.insert(tile(1, 1, 1), sprite(0.0, 0.0, 0.25, 0.25));
    assert_eq!(r, Err(StoreError::OffPlane));
    assert_eq!(store.len(), 0);
    assert_eq!(store.content_hash(), h);
}

#[test]
fn stored_coordinates_stay_on_the_plane() {
    let mut store = TileStore::new();
    for x in -3..=3 {
        for y in -3..=3 {
            for z in -3..=3 {
                let _ = store.insert(tile(x, y, z), sprite(0.0, 0.0, 0.25, 0.25));
            }
        }
    }
    assert_eq!(store.len(), 37);
    for (t, _) in store.tiles() {
        assert_eq!(t.position.x + t.position.y + t.position.z, 0);
    }
}

#[test]
fn tiles_are_walked_in_insertion_order() {
    let mut store = TileStore::new();
    store.insert(tile(2, -1, -1), sprite(0.0, 0.0, 0.25, 0.25)).unwrap();
    store.insert(tile(0, 0, 0), sprite(0.25, 0.0, 0.25, 0.25)).unwrap();
    let walked: Vec<(i32, i32)> = store.tiles().iter().map(|(t, _)| (t.position.x, t.position.y)).collect();
    assert_eq!(walked, vec![(2, -1), (0, 0)]);
}

#[test]
fn find_and_lookup_by_axial_coordinates() {
    let mut store = TileStore::new();
    store.insert(tile(0, 0, 0), sprite(0.0, 0.0, 0.25, 0.25)).unwrap();
    store.insert(tile(1, -1, 0), sprite(0.25, 0.0, 0.25, 0.25)).unwrap();
    assert_eq!(store.find(1, -1), Some(1));
    assert_eq!(store.find(-1, 1), None);
    assert!(store.contains(0, 0));
    assert!(!store.contains(5, 5));
    let (t, s) = store.tile_at_axial(1, -1).unwrap();
    assert_eq!(t.position, CubeCoordinate { x: 1, y: -1, z: 0 });
    assert_eq!(s, sprite(0.25, 0.0, 0.25, 0.25));
    assert!(store.tile_at_axial(2, -1).is_none());
}

#[test]
fn tiles_compare_by_x_and_y() {
    assert!(tile(1, -1, 0) == tile(1, -1, 0));
    assert!(tile(1, -1, 0) != tile(-1, 1, 0));
    assert!(tile(1, -1, 0) == tile(1, -1, 7));
}

#[test]
fn default_terrain_is_grass() {
    assert_eq!(TileMapTilesKind::default(), TileMapTilesKind::Grass);
}
