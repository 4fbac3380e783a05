use vstd::prelude::*;

verus! {

/// A cell of a hexagonal grid in cube coordinates.
///
/// A coordinate is on the grid plane when `x + y + z == 0`; only such
/// coordinates are accepted by the checked constructors and by the tile store.
#[derive(Clone, Copy, Debug, PartialEq, Eq, Structural, Hash)]
pub struct CubeCoordinate {
    pub x: i32,
    pub y: i32,
    pub z: i32,
}

/// Why a triple of integers is not a cube coordinate.
#[derive(Clone, Copy, Debug, PartialEq, Eq, Structural)]
pub enum CoordinateError {
    /// The three components do not sum to zero.
    OffPlane,
    /// The derived third component does not fit in an `i32`.
    OutOfRange,
}

impl CubeCoordinate {
    /// The defining constraint of cube coordinates.
    pub open spec fn on_plane(self) -> bool {
        self.x + self.y + self.z == 0
    }

    /// Checked construction: the triple is accepted exactly when it lies on
    /// the grid plane.
    pub fn new(x: i32, y: i32, z: i32) -> (r: Result<CubeCoordinate, CoordinateError>)
        ensures
            x + y + z == 0 <==> r is Ok,
            r is Ok ==> r->Ok_0 == (CubeCoordinate { x, y, z }),
            r is Err ==> r->Err_0 == CoordinateError::OffPlane,
    {
        if x as i64 + y as i64 + z as i64 == 0 {
            Ok(CubeCoordinate { x, y, z })
        } else {
            Err(CoordinateError::OffPlane)
        }
    }

    /// The cell with axial coordinates `(x, y)`; its third component is
    /// derived as `-x - y`, which must fit in an `i32`.
    pub fn from_axial(x: i32, y: i32) -> (r: Result<CubeCoordinate, CoordinateError>)
        ensures
            (i32::MIN <= -x - y <= i32::MAX) <==> r is Ok,
            r is Ok ==> r->Ok_0 == (CubeCoordinate { x, y, z: (-x - y) as i32 }),
            r is Ok ==> r->Ok_0.on_plane(),
            r is Err ==> r->Err_0 == CoordinateError::OutOfRange,
    {
        let z: i64 = -(x as i64) - (y as i64);
        if i32::MIN as i64 <= z && z <= i32::MAX as i64 {
            Ok(CubeCoordinate { x, y, z: z as i32 })
        } else {
            Err(CoordinateError::OutOfRange)
        }
    }

    /// The triple moved onto the grid plane: kept when it lies on it,
    /// otherwise its third component is derived from the first two.
    pub fn normalized(x: i32, y: i32, z: i32) -> (r: Result<CubeCoordinate, CoordinateError>)
        ensures
            x + y + z == 0 ==> r == Ok::<CubeCoordinate, CoordinateError>(CubeCoordinate { x, y, z }),
            x + y + z != 0 && i32::MIN <= -x - y <= i32::MAX
                ==> r == Ok::<CubeCoordinate, CoordinateError>(CubeCoordinate { x, y, z: (-x - y) as i32 }),
            x + y + z != 0 && !(i32::MIN <= -x - y <= i32::MAX)
                ==> r == Err::<CubeCoordinate, CoordinateError>(CoordinateError::OutOfRange),
            r is Ok ==> r->Ok_0.on_plane(),
    {
        match CubeCoordinate::new(x, y, z) {
            Ok(c) => Ok(c),
            Err(_) => CubeCoordinate::from_axial(x, y),
        }
    }

    /// Whether the coordinate satisfies `x + y + z == 0`.
    pub fn is_on_plane(&self) -> (r: bool)
        ensures
            r == self.on_plane(),
    {
        self.x as i64 + self.y as i64 + self.z as i64 == 0
    }
}

} // verus!
