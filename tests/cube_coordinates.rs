use hex_tiles::cube::{CoordinateError, CubeCoordinate};

#[test]
fn new_accepts_coordinates_on_the_plane() {
    let c = CubeCoordinate::new(1, -1, 0).unwrap();
    assert_eq!(c, CubeCoordinate { x: 1, y: -1, z: 0 });
    assert!(c.is_on_plane());
}

#[test]
fn new_rejects_coordinates_off_the_plane() {
    assert_eq!(CubeCoordinate::new(1, 1, 0), Err(CoordinateError::OffPlane));
    assert_eq!(CubeCoordinate::new(0, 0, 1), Err(CoordinateError::OffPlane));
}

#[test]
fn new_handles_extreme_components_without_overflow() {
    assert_eq!(CubeCoordinate::new(i32::MAX, i32::MAX, i32::MAX), Err(CoordinateError::OffPlane));
    let c = CubeCoordinate::new(i32::MAX, i32::MIN, 1).unwrap();
    assert_eq!(c.z, 1);
}

#[test]
fn from_axial_derives_third_component() {
    let c = CubeCoordinate::from_axial(2, -5).unwrap();
    assert_eq!(c, CubeCoordinate { x: 2, y: -5, z: 3 });
    assert!(c.is_on_plane());
}

#[test]
fn from_axial_reports_an_unrepresentable_third_component() {
    assert_eq!(CubeCoordinate::from_axial(i32::MIN, 0), Err(CoordinateError::OutOfRange));
    assert_eq!(CubeCoordinate::from_axial(i32::MIN, -1), Err(CoordinateError::OutOfRange));
    assert_eq!(CubeCoordinate::from_axial(i32::MIN, 1).unwrap().z, i32::MAX);
}

#[test]
fn is_on_plane_detects_a_hand_built_violation() {
    let c = CubeCoordinate { x: 1, y: 0, z: 0 };
    assert!(!c.is_on_plane());
}
