use hex_tiles::camera::get_camera;
use hex_tiles::cube::{CoordinateError, CubeCoordinate};
use hex_tiles::pawn::{Complex, Cursor, Pawn, Race, Sex, Spece};
use hex_tiles::region::{create_debug_tiles, hex_region};
use hex_tiles::tile::TileSprite;
use hex_tiles::resource::{Resource, ResourceInfo, Stacking, create_resource_dictionary};

#[test]
fn active_camera_is_preferred() {
    assert_eq!(get_camera(Some(7), &vec![5, 7, 9]), Some(1));
}

#[test]
fn first_camera_when_active_is_missing() {
    assert_eq!(get_camera(Some(4), &vec![5, 7, 9]), Some(0));
    assert_eq!(get_camera(None, &vec![5, 7, 9]), Some(0));
}

#[test]
fn no_camera_at_all() {
    assert_eq!(get_camera(Some(4), &vec![]), None);
    assert_eq!(get_camera(None, &vec![]), None);
}

#[test]
fn resource_dictionary_lists_stacking_limits() {
    let d = create_resource_dictionary();
    assert_eq!(d.len(), 2);
    assert_eq!(
        d.get(Resource::Apple),
        Some(ResourceInfo { stacking: Stacking { unordered: 20, ordered: 30 } })
    );
    assert_eq!(
        d.get(Resource::PieceOfMeat),
        Some(ResourceInfo { stacking: Stacking { unordered: 2, ordered: 10 } })
    );
}

#[test]
fn new_pawn_has_default_skin_set() {
    let p = Pawn::new();
    assert_eq!(p.racial.skin_set, "default");
}

#[test]
fn pawn_kinds_compare_by_value() {
    let a = Spece::Human(Sex::Male, Race::Euro, Complex::Athletic);
    assert_eq!(a, Spece::Human(Sex::Male, Race::Euro, Complex::Athletic));
    assert_ne!(a, Spece::Wolf(Sex::Male));
    assert_eq!(Cursor, Cursor);
}

#[test]
fn region_of_side_one_is_the_center() {
    let c = CubeCoordinate { x: 2, y: -1, z: -1 };
    assert_eq!(hex_region(1, c), vec![c]);
}

#[test]
fn region_of_side_zero_is_empty() {
    assert!(hex_region(0, CubeCoordinate { x: 0, y: 0, z: 0 }).is_empty());
}

#[test]
fn region_of_side_two_is_a_ring_of_seven() {
    let r = hex_region(2, CubeCoordinate { x: 0, y: 0, z: 0 });
    let cells: Vec<(i32, i32, i32)> = r.iter().map(|c| (c.x, c.y, c.z)).collect();
    assert_eq!(
        cells,
        vec![(-1, 0, 1), (-1, 1, 0), (0, -1, 1), (0, 0, 0), (0, 1, -1), (1, -1, 0), (1, 0, -1)]
    );
}

#[test]
fn region_of_side_four_has_thirty_seven_cells() {
    let center = CubeCoordinate { x: 1, y: 1, z: -2 };
    let r = hex_region(4, center);
    assert_eq!(r.len(), 37);
    for c in &r {
        assert_eq!(c.x + c.y + c.z, 0);
        assert!((c.x - center.x).abs() <= 3 && (c.y - center.y).abs() <= 3 && (c.z - center.z).abs() <= 3);
    }
}

#[test]
fn debug_tiles_fill_a_store_with_one_sprite() {
    let quarter = 0.25f32.to_bits();
    let sprite = TileSprite { offset_x: 0, offset_y: 0, size_x: quarter, size_y: quarter };
    let center = CubeCoordinate { x: 0, y: 0, z: 0 };
    let store = create_debug_tiles(4, center, sprite);
    assert_eq!(store.len(), 37);
    assert!(store.tiles().iter().all(|(_, s)| *s == sprite));
    assert!(store.contains(3, -3));
    assert!(store.contains(-3, 0));
    assert!(!store.contains(3, 1));
    let cells: Vec<CubeCoordinate> = store.tiles().iter().map(|(t, _)| t.position).collect();
    assert_eq!(cells, hex_region(4, center));
}

#[test]
fn normalized_keeps_or_derives_the_third_component() {
    assert_eq!(CubeCoordinate::normalized(1, -1, 0), Ok(CubeCoordinate { x: 1, y: -1, z: 0 }));
    assert_eq!(CubeCoordinate::normalized(1, 2, 5), Ok(CubeCoordinate { x: 1, y: 2, z: -3 }));
    assert_eq!(CubeCoordinate::normalized(i32::MIN, 0, 5), Err(CoordinateError::OutOfRange));
}
