//! Which cell of a grid a place falls into, when the grid is laid over the
//! rectangle that is searched.

use vstd::prelude::*;

verus! {

/// Whether a place can be given a cell: the rectangle has area, the place
/// lies in it, and the grid has a row and a column at least.
pub open spec fn addressable(
    lat: int,
    lon: int,
    lat_min: int,
    lon_min: int,
    lat_max: int,
    lon_max: int,
    rows: int,
    cols: int,
) -> bool {
    &&& lat_min < lat_max
    &&& lon_min < lon_max
    &&& lat_min <= lat <= lat_max
    &&& lon_min <= lon <= lon_max
    &&& rows >= 1
    &&& cols >= 1
}

/// The row of a latitude: the rows divide the height of the rectangle so
/// that its southern bound falls into the first row and its northern bound
/// into the last.
pub open spec fn row_of(lat: int, lat_min: int, lat_max: int, rows: int) -> int {
    ((lat - lat_min) * (rows - 1)) / (lat_max - lat_min)
}

/// The column of a longitude: the columns divide the width of the rectangle
/// evenly, from the western bound on. The eastern bound itself falls past
/// the last column.
pub open spec fn col_of(lon: int, lon_min: int, lon_max: int, cols: int) -> int {
    ((lon - lon_min) * cols) / (lon_max - lon_min)
}

/// The row and the column of the place (`lat`, `lon`) in a grid of `rows` by
/// `cols` cells laid over the rectangle; nothing for a place outside the
/// rectangle, a rectangle without area or a grid without cells. Angles are
/// in 1e-7 degree.
pub fn cell_of(
    lat: i32,
    lon: i32,
    lat_min: i32,
    lon_min: i32,
    lat_max: i32,
    lon_max: i32,
    rows: u32,
    cols: u32,
) -> (r: Option<(u32, u32)>)
    ensures
        match r {
            Some((row, col)) => {
                &&& addressable(
                    lat as int,
                    lon as int,
                    lat_min as int,
                    lon_min as int,
                    lat_max as int,
                    lon_max as int,
                    rows as int,
                    cols as int,
                )
                &&& row == row_of(lat as int, lat_min as int, lat_max as int, rows as int)
                &&& col == col_of(lon as int, lon_min as int, lon_max as int, cols as int)
                &&& row < rows
                &&& col <= cols
            },
            None => !addressable(
                lat as int,
                lon as int,
                lat_min as int,
                lon_min as int,
                lat_max as int,
                lon_max as int,
                rows as int,
                cols as int,
            ),
        },
{
    if lat_min >= lat_max || lon_min >= lon_max || lat < lat_min || lat > lat_max || lon < lon_min
        || lon > lon_max || rows == 0 || cols == 0 {
        return None;
    }
    let up: u64 = (lat as i64 - lat_min as i64) as u64;
    let height: u64 = (lat_max as i64 - lat_min as i64) as u64;
    let across: u64 = (lon as i64 - lon_min as i64) as u64;
    let width: u64 = (lon_max as i64 - lon_min as i64) as u64;
    proof {
        lemma_share(up as int, height as int, rows - 1);
        lemma_share(across as int, width as int, cols as int);
    }
    let row: u64 = (up * (rows - 1) as u64) / height;
    let col: u64 = (across * cols as u64) / width;
    Some((row as u32, col as u32))
}

/// A part of the whole, scaled to `count`, is at most `count`.
proof fn lemma_share(part: int, whole: int, count: int)
    requires
        0 <= part <= whole,
        0 < whole <= 0xffff_ffff,
        0 <= count <= 0xffff_ffff,
    ensures
        0 <= part * count <= 0xffff_ffff * 0xffff_ffff,
        0 <= (part * count) / whole <= count,
{
    assert(0 <= part * count <= 0xffff_ffff * 0xffff_ffff) by (nonlinear_arith)
        requires
            0 <= part <= 0xffff_ffff,
            0 <= count <= 0xffff_ffff,
    ;
    assert(0 <= (part * count) / whole <= count) by (nonlinear_arith)
        requires
            0 <= part <= whole,
            0 < whole,
            0 <= count,
    ;
}

} // verus!
