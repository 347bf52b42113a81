//! The local frame: a flat, locally tangent frame of north and east around
//! an origin. It serves one mission and is not valid over the globe.

use vstd::prelude::*;
use crate::flight::arith::{scaled, toward_zero};

verus! {

/// The number of angle units in one degree.
pub const UNITS_PER_DEGREE: u64 = 10_000_000;

/// A place in the local frame, in millimetres north and east of the origin.
#[derive(Debug, Clone, Copy, PartialEq, Eq, Structural)]
pub struct LocalPoint {
    pub north: i32,
    pub east: i32,
}

/// The length of one degree at the origin, in millimetres: of latitude
/// (northward) and of longitude (eastward). The two differ, and the second
/// shrinks with the cosine of the origin's latitude.
#[derive(Debug, Clone, Copy, PartialEq, Eq, Structural)]
pub struct DegreeScale {
    pub north: u32,
    pub east: u32,
}

/// The distance north of the origin, in millimetres, of a latitude.
pub open spec fn northing(lat: int, lat_origin: int, scale: DegreeScale) -> int {
    toward_zero((lat - lat_origin) * scale.north, UNITS_PER_DEGREE as int)
}

/// The distance east of the origin, in millimetres, of a longitude.
pub open spec fn easting(lon: int, lon_origin: int, scale: DegreeScale) -> int {
    toward_zero((lon - lon_origin) * scale.east, UNITS_PER_DEGREE as int)
}

/// Whether a length in millimetres lies within the local frame.
pub open spec fn in_frame(v: int) -> bool {
    i32::MIN <= v <= i32::MAX
}

/// Projects a place on the globe into the local frame around the origin.
/// Angles are in 1e-7 degree. Nothing is returned for a place so far from the
/// origin that it lies outside the frame.
pub fn geo_to_local(
    lat: i32,
    lon: i32,
    lat_origin: i32,
    lon_origin: i32,
    scale: DegreeScale,
) -> (r: Option<LocalPoint>)
    ensures
        match r {
            Some(point) => {
                &&& point.north == northing(lat as int, lat_origin as int, scale)
                &&& point.east == easting(lon as int, lon_origin as int, scale)
            },
            None => !in_frame(northing(lat as int, lat_origin as int, scale)) || !in_frame(
                easting(lon as int, lon_origin as int, scale),
            ),
        },
{
    let north: i128 = scaled(lat as i64 - lat_origin as i64, scale.north as u64, UNITS_PER_DEGREE);
    let east: i128 = scaled(lon as i64 - lon_origin as i64, scale.east as u64, UNITS_PER_DEGREE);
    if north < i32::MIN as i128 || north > i32::MAX as i128 || east < i32::MIN as i128 || east
        > i32::MAX as i128 {
        return None;
    }
    Some(LocalPoint { north: north as i32, east: east as i32 })
}

/// The origin lies at the origin of its own frame.
pub proof fn lemma_origin_projects_to_zero(lat_origin: int, lon_origin: int, scale: DegreeScale)
    ensures
        northing(lat_origin, lat_origin, scale) == 0,
        easting(lon_origin, lon_origin, scale) == 0,
{
    assert(0int * scale.north == 0) by (nonlinear_arith);
    assert(0int * scale.east == 0) by (nonlinear_arith);
}

/// Places further north lie further north in the frame, and places further
/// east further east.
pub proof fn lemma_projection_monotone(a: int, b: int, origin: int, per_degree: u32)
    requires
        a <= b,
    ensures
        toward_zero((a - origin) * per_degree, UNITS_PER_DEGREE as int) <= toward_zero(
            (b - origin) * per_degree,
            UNITS_PER_DEGREE as int,
        ),
{
    let x = (a - origin) * per_degree;
    let y = (b - origin) * per_degree;
    assert(x <= y) by (nonlinear_arith)
        requires
            a <= b,
            x == (a - origin) * per_degree,
            y == (b - origin) * per_degree,
            per_degree >= 0,
    ;
    if x >= 0 {
        assert(x / 10_000_000 <= y / 10_000_000);
    } else if y >= 0 {
        assert((-x) / 10_000_000 >= 0);
        assert(y / 10_000_000 >= 0);
    } else {
        assert((-x) / 10_000_000 >= (-y) / 10_000_000);
    }
}

} // verus!
