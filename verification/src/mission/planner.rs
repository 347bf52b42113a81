//! Area decomposition: a rectangle is cut into one longitude slice per agent,
//! and each slice is swept north-south in a boustrophedon pattern.

use vstd::prelude::*;
use crate::error::MissionError;
use crate::mission::waypoint::{Waypoint, WaypointModel};

verus! {

/// The western edge of slice `i` when `[lon_min, lon_max]` is cut into `n`
/// slices; slice `i` is the half-open range from edge `i` to edge `i + 1`.
pub open spec fn slice_bound(lon_min: int, lon_max: int, n: int, i: int) -> int {
    lon_min + (i * (lon_max - lon_min)) / n
}

/// The longitude that one swath width spans, given that the whole rectangle
/// is `extent` wide on the ground: `swath` scaled by longitude per length,
/// rounded down.
pub open spec fn longitude_step(lon_min: int, lon_max: int, swath: int, extent: int) -> int {
    (swath * (lon_max - lon_min)) / extent
}

/// The number of sweep lines in the slice `[lo, hi)`: one at `lo` and one
/// every `step` after it, as long as they lie west of `hi`.
pub open spec fn sweep_count(lo: int, hi: int, step: int) -> int {
    if lo < hi && step > 0 {
        (hi - lo - 1) / step + 1
    } else {
        0
    }
}

/// The latitude of waypoint `j` of a sweep. Each line holds two waypoints,
/// and the lines alternate in direction: south to north, then north to south.
pub open spec fn sweep_latitude(lat_min: int, lat_max: int, j: int) -> int {
    if j % 4 == 0 || j % 4 == 3 {
        lat_min
    } else {
        lat_max
    }
}

/// Waypoint `j` of the sweep that starts at longitude `lo`.
pub open spec fn sweep_waypoint(
    lo: int,
    step: int,
    lat_min: int,
    lat_max: int,
    altitude: int,
    j: int,
) -> WaypointModel {
    WaypointModel {
        latitude: sweep_latitude(lat_min, lat_max, j),
        longitude: lo + (j / 2) * step,
        altitude,
        hover_time: 0,
    }
}

/// The sweep of the slice `[lo, hi)`, in traversal order.
pub open spec fn sweep(
    lo: int,
    hi: int,
    step: int,
    lat_min: int,
    lat_max: int,
    altitude: int,
) -> Seq<WaypointModel> {
    Seq::new(
        (2 * sweep_count(lo, hi, step)) as nat,
        |j: int| sweep_waypoint(lo, step, lat_min, lat_max, altitude, j),
    )
}

/// A rectangle with no area: its slices have no usable width.
pub open spec fn is_degenerate(lat_min: int, lon_min: int, lat_max: int, lon_max: int) -> bool {
    lat_min == lat_max || lon_min == lon_max
}

/// The requests that the planner accepts: at least one agent, a positive
/// swath, bounds the right way round and, unless the rectangle is degenerate,
/// a positive extent under which one swath spans at least one unit of
/// longitude (else the sweep would never advance).
pub open spec fn plan_accepted(
    lat_min: int,
    lon_min: int,
    lat_max: int,
    lon_max: int,
    n: int,
    swath: int,
    extent: int,
) -> bool {
    &&& n >= 1
    &&& swath > 0
    &&& lat_min <= lat_max
    &&& lon_min <= lon_max
    &&& (!is_degenerate(lat_min, lon_min, lat_max, lon_max) ==> extent > 0 && longitude_step(
        lon_min,
        lon_max,
        swath,
        extent,
    ) >= 1)
}

/// The mission of agent `i` under an accepted request.
pub open spec fn planned_mission(
    lat_min: int,
    lon_min: int,
    lat_max: int,
    lon_max: int,
    n: int,
    swath: int,
    altitude: int,
    extent: int,
    i: int,
) -> Seq<WaypointModel> {
    if is_degenerate(lat_min, lon_min, lat_max, lon_max) {
        Seq::empty()
    } else {
        sweep(
            slice_bound(lon_min, lon_max, n, i),
            slice_bound(lon_min, lon_max, n, i + 1),
            longitude_step(lon_min, lon_max, swath, extent),
            lat_min,
            lat_max,
            altitude,
        )
    }
}

/// The models of a sequence of waypoints.
pub open spec fn waypoints_view(wps: Seq<Waypoint>) -> Seq<WaypointModel> {
    Seq::new(wps.len(), |j: int| wps[j]@)
}

/// Between two multiples: `a` lies in line `k` of width `step`.
proof fn lemma_quotient(a: int, step: int, k: int)
    requires
        step > 0,
        k * step <= a < (k + 1) * step,
    ensures
        a / step == k,
{
    assert(a / step == k) by (nonlinear_arith)
        requires
            step > 0,
            k * step <= a < (k + 1) * step,
    ;
}

/// The edges of the slices rise from `lon_min` to `lon_max`.
pub proof fn lemma_slice_bounds(lon_min: int, lon_max: int, n: int, i: int)
    requires
        lon_min <= lon_max,
        n >= 1,
        0 <= i < n,
    ensures
        lon_min <= slice_bound(lon_min, lon_max, n, i) <= slice_bound(lon_min, lon_max, n, i + 1)
            <= lon_max,
        slice_bound(lon_min, lon_max, n, 0) == lon_min,
        slice_bound(lon_min, lon_max, n, n) == lon_max,
{
    let span = lon_max - lon_min;
    assert(0 <= (i * span) / n <= ((i + 1) * span) / n <= span) by (nonlinear_arith)
        requires
            span >= 0,
            n >= 1,
            0 <= i < n,
    ;
    assert((0 * span) / n == 0) by (nonlinear_arith)
        requires
            n >= 1,
    ;
    assert((n * span) / n == span) by (nonlinear_arith)
        requires
            n >= 1,
    ;
}

/// Sweeps the slice `[lo, hi)`: at each line two waypoints, one at each
/// latitude bound, the lines alternating in direction.
fn sweep_slice(lo: i32, hi: i32, step: i64, lat_min: i32, lat_max: i32, altitude: i32) -> (wps:
    Vec<Waypoint>)
    requires
        step >= 1,
    ensures
        waypoints_view(wps@) == sweep(
            lo as int,
            hi as int,
            step as int,
            lat_min as int,
            lat_max as int,
            altitude as int,
        ),
{
    let mut wps: Vec<Waypoint> = Vec::new();
    if lo >= hi {
        assert(waypoints_view(wps@) =~= sweep(
            lo as int,
            hi as int,
            step as int,
            lat_min as int,
            lat_max as int,
            altitude as int,
        ));
        return wps;
    }
    let mut curr: i32 = lo;
    let mut upward: bool = true;
    let ghost mut k: int = 0;
    loop
        invariant_except_break
            curr == lo + k * step,
            upward == (k % 2 == 0),
        invariant
            step >= 1,
            lo <= curr < hi,
            k >= 0,
            wps.len() == 2 * k,
            forall|j: int|
                0 <= j < 2 * k ==> (#[trigger] wps[j])@ == sweep_waypoint(
                    lo as int,
                    step as int,
                    lat_min as int,
                    lat_max as int,
                    altitude as int,
                    j,
                ),
        ensures
            lo < hi,
            k >= 1,
            (k - 1) * step <= hi - lo - 1 < k * step,
            wps.len() == 2 * k,
            forall|j: int|
                0 <= j < 2 * k ==> (#[trigger] wps[j])@ == sweep_waypoint(
                    lo as int,
                    step as int,
                    lat_min as int,
                    lat_max as int,
                    altitude as int,
                    j,
                ),
        decreases hi - curr,
    {
        let first: i32 = if upward { lat_min } else { lat_max };
        let second: i32 = if upward { lat_max } else { lat_min };
        wps.push(Waypoint::new_waypoint(first, curr, altitude));
        wps.push(Waypoint::new_waypoint(second, curr, altitude));
        upward = !upward;
        proof {
            assert((k + 1) * step == k * step + step) by (nonlinear_arith);
            k = k + 1;
        }
        let room: i64 = hi as i64 - curr as i64;
        if step >= room {
            break ;
        }
        curr = (curr as i64 + step) as i32;
    }
    proof {
        lemma_quotient(hi - lo - 1, step as int, k - 1);
        assert(waypoints_view(wps@) =~= sweep(
            lo as int,
            hi as int,
            step as int,
            lat_min as int,
            lat_max as int,
            altitude as int,
        ));
    }
    wps
}

/// A step that reaches past the slice sweeps it as any other such step does:
/// with the one line at its western edge.
proof fn lemma_long_step(
    lo: int,
    hi: int,
    step: int,
    other: int,
    lat_min: int,
    lat_max: int,
    altitude: int,
)
    requires
        step >= hi - lo,
        other >= hi - lo,
        step >= 1,
        other >= 1,
    ensures
        sweep(lo, hi, step, lat_min, lat_max, altitude) == sweep(
            lo,
            hi,
            other,
            lat_min,
            lat_max,
            altitude,
        ),
{
    if lo < hi {
        lemma_quotient(hi - lo - 1, step, 0);
        lemma_quotient(hi - lo - 1, other, 0);
    }
    assert(sweep(lo, hi, step, lat_min, lat_max, altitude) =~= sweep(
        lo,
        hi,
        other,
        lat_min,
        lat_max,
        altitude,
    ));
}

/// The eastern or western edge of a slice: `lon_min` plus the `i`-th of `n`
/// equal parts of `span`, rounded down.
fn slice_edge(lon_min: i32, lon_max: i32, n: u32, i: u32) -> (edge: i32)
    requires
        lon_min <= lon_max,
        n >= 1,
        i <= n,
    ensures
        edge == slice_bound(lon_min as int, lon_max as int, n as int, i as int),
        lon_min <= edge <= lon_max,
{
    let span: u64 = (lon_max as i64 - lon_min as i64) as u64;
    proof {
        assert(0 <= (i as int) * (span as int) <= 0xffff_ffff * 0xffff_ffff) by (nonlinear_arith)
            requires
                0 <= i <= 0xffff_ffff,
                0 <= span <= 0xffff_ffff,
        ;
        assert(0 <= ((i as int) * (span as int)) / (n as int) <= span as int) by (nonlinear_arith)
            requires
                0 <= i <= n,
                n >= 1,
                span >= 0,
        ;
    }
    let part: u64 = (i as u64 * span) / (n as u64);
    (lon_min as i64 + part as i64) as i32
}

/// Plans a search of the rectangle by `n_drones` agents.
///
/// The rectangle is cut into `n_drones` longitude slices of equal width, and
/// each slice is swept in lines one swath apart; a line is two waypoints, one
/// at each latitude bound, and the lines alternate in direction. Agent `i`
/// gets the sweep of slice `i`. Angles are in 1e-7 degree, lengths in
/// millimetres. `total_width` is the ground distance between the two
/// longitude bounds at `lat_min`; it turns the swath width into a step of
/// longitude.
///
/// A degenerate rectangle gives every agent an empty mission. A request with
/// no agents, a swath that is not positive, bounds the wrong way round, or
/// (for a rectangle with area) an extent that is not positive or a swath too
/// narrow to span one unit of longitude is refused.
pub fn lawnmower_slice_search(
    lat_min: i32,
    lon_min: i32,
    lat_max: i32,
    lon_max: i32,
    n_drones: u32,
    swath_width: i64,
    altitude: i32,
    total_width: i64,
) -> (r: Result<Vec<Vec<Waypoint>>, MissionError>)
    ensures
        match r {
            Ok(missions) => {
                &&& plan_accepted(
                    lat_min as int,
                    lon_min as int,
                    lat_max as int,
                    lon_max as int,
                    n_drones as int,
                    swath_width as int,
                    total_width as int,
                )
                &&& missions.len() == n_drones
                &&& forall|i: int|
                    0 <= i < n_drones ==> waypoints_view((#[trigger] missions[i])@)
                        == planned_mission(
                        lat_min as int,
                        lon_min as int,
                        lat_max as int,
                        lon_max as int,
                        n_drones as int,
                        swath_width as int,
                        altitude as int,
                        total_width as int,
                        i,
                    )
            },
            Err(e) => {
                &&& e == MissionError::InvalidConfiguration
                &&& !plan_accepted(
                    lat_min as int,
                    lon_min as int,
                    lat_max as int,
                    lon_max as int,
                    n_drones as int,
                    swath_width as int,
                    total_width as int,
                )
            },
        },
{
    if n_drones == 0 || swath_width <= 0 || lat_min > lat_max || lon_min > lon_max {
        return Err(MissionError::InvalidConfiguration);
    }
    let degenerate: bool = lat_min == lat_max || lon_min == lon_max;
    let span: i64 = lon_max as i64 - lon_min as i64;
    let mut step: i64 = 1;
    if !degenerate {
        if total_width <= 0 {
            return Err(MissionError::InvalidConfiguration);
        }
        proof {
            assert(0 <= (swath_width as int) * (span as int) <= 0x7fff_ffff_ffff_ffff
                * 0xffff_ffff) by (nonlinear_arith)
                requires
                    0 <= swath_width <= 0x7fff_ffff_ffff_ffff,
                    0 <= span <= 0xffff_ffff,
            ;
        }
        let wide: u128 = (swath_width as u128 * span as u128) / (total_width as u128);
        if wide == 0 {
            return Err(MissionError::InvalidConfiguration);
        }
        step = if wide > span as u128 { span } else { wide as i64 };
    }
    let ghost full_step: int = longitude_step(
        lon_min as int,
        lon_max as int,
        swath_width as int,
        total_width as int,
    );
    let mut missions: Vec<Vec<Waypoint>> = Vec::new();
    let mut i: u32 = 0;
    while i < n_drones
        invariant
            i <= n_drones,
            n_drones >= 1,
            lat_min <= lat_max,
            lon_min <= lon_max,
            degenerate == is_degenerate(
                lat_min as int,
                lon_min as int,
                lat_max as int,
                lon_max as int,
            ),
            span == lon_max - lon_min,
            step >= 1,
            !degenerate ==> (step == full_step || (step == span && full_step > span)),
            full_step == longitude_step(
                lon_min as int,
                lon_max as int,
                swath_width as int,
                total_width as int,
            ),
            missions.len() == i,
            forall|m: int|
                0 <= m < i ==> waypoints_view((#[trigger] missions[m])@) == planned_mission(
                    lat_min as int,
                    lon_min as int,
                    lat_max as int,
                    lon_max as int,
                    n_drones as int,
                    swath_width as int,
                    altitude as int,
                    total_width as int,
                    m,
                ),
        decreases n_drones - i,
    {
        let mut waypoints: Vec<Waypoint> = Vec::new();
        if degenerate {
            assert(waypoints_view(waypoints@) =~= Seq::<WaypointModel>::empty());
        } else {
            let lo: i32 = slice_edge(lon_min, lon_max, n_drones, i);
            let hi: i32 = slice_edge(lon_min, lon_max, n_drones, i + 1);
            waypoints = sweep_slice(lo, hi, step, lat_min, lat_max, altitude);
            proof {
                lemma_slice_bounds(lon_min as int, lon_max as int, n_drones as int, i as int);
                if step != full_step {
                    lemma_long_step(
                        lo as int,
                        hi as int,
                        step as int,
                        full_step,
                        lat_min as int,
                        lat_max as int,
                        altitude as int,
                    );
                }
            }
        }
        missions.push(waypoints);
        i = i + 1;
    }
    Ok(missions)
}

/// Every waypoint of a sweep lies in its slice, at one of the two latitude
/// bounds and at the altitude asked for, and the two waypoints of a line
/// stand at opposite bounds.
pub proof fn lemma_sweep_within(
    lo: int,
    hi: int,
    step: int,
    lat_min: int,
    lat_max: int,
    altitude: int,
    j: int,
)
    requires
        step >= 1,
        0 <= j < sweep(lo, hi, step, lat_min, lat_max, altitude).len(),
    ensures
        lo <= sweep(lo, hi, step, lat_min, lat_max, altitude)[j].longitude < hi,
        sweep(lo, hi, step, lat_min, lat_max, altitude)[j].altitude == altitude,
        sweep(lo, hi, step, lat_min, lat_max, altitude)[j].hover_time == 0,
        sweep(lo, hi, step, lat_min, lat_max, altitude)[j].latitude == lat_min || sweep(
            lo,
            hi,
            step,
            lat_min,
            lat_max,
            altitude,
        )[j].latitude == lat_max,
        j % 2 == 0 ==> sweep(lo, hi, step, lat_min, lat_max, altitude)[j].longitude == sweep(
            lo,
            hi,
            step,
            lat_min,
            lat_max,
            altitude,
        )[j + 1].longitude,
        j % 2 == 0 ==> sweep(lo, hi, step, lat_min, lat_max, altitude)[j].latitude + sweep(
            lo,
            hi,
            step,
            lat_min,
            lat_max,
            altitude,
        )[j + 1].latitude == lat_min + lat_max,
{
    let count = sweep_count(lo, hi, step);
    let k = j / 2;
    assert(0 <= k * step <= (count - 1) * step <= hi - lo - 1) by (nonlinear_arith)
        requires
            step >= 1,
            0 <= k <= count - 1,
            count - 1 == (hi - lo - 1) / step,
            hi - lo - 1 >= 0,
    ;
}

/// The planner's first law. Under an accepted request on a rectangle with
/// area, every waypoint of agent `i` has its longitude within slice `i`, and
/// the mission of agent `i` is empty only if slice `i` has no width, which
/// cannot happen when the rectangle spans at least `n` units of longitude.
pub proof fn lemma_missions_in_slices(
    lat_min: int,
    lon_min: int,
    lat_max: int,
    lon_max: int,
    n: int,
    swath: int,
    altitude: int,
    extent: int,
    i: int,
)
    requires
        plan_accepted(lat_min, lon_min, lat_max, lon_max, n, swath, extent),
        !is_degenerate(lat_min, lon_min, lat_max, lon_max),
        0 <= i < n,
    ensures
        lon_min <= slice_bound(lon_min, lon_max, n, i) <= slice_bound(lon_min, lon_max, n, i + 1)
            <= lon_max,
        forall|j: int|
            0 <= j < planned_mission(
                lat_min,
                lon_min,
                lat_max,
                lon_max,
                n,
                swath,
                altitude,
                extent,
                i,
            ).len() ==> slice_bound(lon_min, lon_max, n, i) <= (#[trigger] planned_mission(
                lat_min,
                lon_min,
                lat_max,
                lon_max,
                n,
                swath,
                altitude,
                extent,
                i,
            )[j]).longitude < slice_bound(lon_min, lon_max, n, i + 1),
        planned_mission(lat_min, lon_min, lat_max, lon_max, n, swath, altitude, extent, i).len()
            > 0 <==> slice_bound(lon_min, lon_max, n, i) < slice_bound(
            lon_min,
            lon_max,
            n,
            i + 1,
        ),
        n <= lon_max - lon_min ==> planned_mission(
            lat_min,
            lon_min,
            lat_max,
            lon_max,
            n,
            swath,
            altitude,
            extent,
            i,
        ).len() > 0,
{
    let lo = slice_bound(lon_min, lon_max, n, i);
    let hi = slice_bound(lon_min, lon_max, n, i + 1);
    let step = longitude_step(lon_min, lon_max, swath, extent);
    let span = lon_max - lon_min;
    lemma_slice_bounds(lon_min, lon_max, n, i);
    assert forall|j: int|
        0 <= j < planned_mission(
            lat_min,
            lon_min,
            lat_max,
            lon_max,
            n,
            swath,
            altitude,
            extent,
            i,
        ).len() implies lo <= (#[trigger] planned_mission(
        lat_min,
        lon_min,
        lat_max,
        lon_max,
        n,
        swath,
        altitude,
        extent,
        i,
    )[j]).longitude < hi by {
        lemma_sweep_within(lo, hi, step, lat_min, lat_max, altitude, j);
    }
    if lo < hi {
        assert((hi - lo - 1) / step >= 0) by (nonlinear_arith)
            requires
                hi - lo - 1 >= 0,
                step >= 1,
        ;
    }
    if n <= span {
        assert((i * span) / n < ((i + 1) * span) / n) by (nonlinear_arith)
            requires
                1 <= n <= span,
                0 <= i,
        ;
    }
}

/// The slice that holds the longitude `x`.
proof fn lemma_find_slice(lon_min: int, lon_max: int, n: int, x: int, upto: int) -> (i: int)
    requires
        lon_min <= lon_max,
        n >= 1,
        1 <= upto <= n,
        lon_min <= x < slice_bound(lon_min, lon_max, n, upto),
    ensures
        0 <= i < upto,
        slice_bound(lon_min, lon_max, n, i) <= x < slice_bound(lon_min, lon_max, n, i + 1),
    decreases upto,
{
    lemma_slice_bounds(lon_min, lon_max, n, upto - 1);
    if slice_bound(lon_min, lon_max, n, upto - 1) <= x {
        upto - 1
    } else {
        lemma_find_slice(lon_min, lon_max, n, x, upto - 1)
    }
}

/// The planner's second law. Under an accepted request on a rectangle with
/// area, the sweep lines of all agents together leave no gap wider than one
/// swath: every longitude of the rectangle lies less than one step east of
/// some waypoint, and one step of longitude is at most one swath width on
/// the ground.
pub proof fn lemma_span_covered(
    lat_min: int,
    lon_min: int,
    lat_max: int,
    lon_max: int,
    n: int,
    swath: int,
    altitude: int,
    extent: int,
    x: int,
) -> (at: (int, int))
    requires
        plan_accepted(lat_min, lon_min, lat_max, lon_max, n, swath, extent),
        !is_degenerate(lat_min, lon_min, lat_max, lon_max),
        lon_min <= x < lon_max,
    ensures
        0 <= at.0 < n,
        0 <= at.1 < planned_mission(
            lat_min,
            lon_min,
            lat_max,
            lon_max,
            n,
            swath,
            altitude,
            extent,
            at.0,
        ).len(),
        planned_mission(
            lat_min,
            lon_min,
            lat_max,
            lon_max,
            n,
            swath,
            altitude,
            extent,
            at.0,
        )[at.1].longitude <= x < planned_mission(
            lat_min,
            lon_min,
            lat_max,
            lon_max,
            n,
            swath,
            altitude,
            extent,
            at.0,
        )[at.1].longitude + longitude_step(lon_min, lon_max, swath, extent),
        longitude_step(lon_min, lon_max, swath, extent) * extent <= swath * (lon_max - lon_min),
{
    let step = longitude_step(lon_min, lon_max, swath, extent);
    let span = lon_max - lon_min;
    lemma_slice_bounds(lon_min, lon_max, n, 0);
    let i = lemma_find_slice(lon_min, lon_max, n, x, n);
    let lo = slice_bound(lon_min, lon_max, n, i);
    let hi = slice_bound(lon_min, lon_max, n, i + 1);
    let k = (x - lo) / step;
    assert(0 <= k && k * step <= x - lo < k * step + step && k <= (hi - lo - 1) / step)
        by (nonlinear_arith)
        requires
            k == (x - lo) / step,
            step >= 1,
            0 <= x - lo <= hi - lo - 1,
    ;
    assert(((swath * span) / extent) * extent <= swath * span) by (nonlinear_arith)
        requires
            extent > 0,
    ;
    assert((2 * k) / 2 == k);
    (i, 2 * k)
}

} // verus!
