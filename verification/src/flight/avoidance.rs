//! Reactive avoidance: the latest range scan as a repulsion vector. The
//! vector nudges a commanded position; it blocks nothing and replans
//! nothing.

use vstd::prelude::*;
use crate::flight::arith::{saturate, saturated, scaled, toward_zero};

verus! {

/// The length of a unit vector's components: they are held in millionths.
pub const UNIT: u64 = 1_000_000;

/// No single reading pushes further than this, in millimetres.
pub const PUSH_LIMIT: i64 = 0x1000_0000_0000;

/// One reading of a range scan.
#[derive(Debug, Clone, Copy, PartialEq, Eq, Structural)]
pub struct Reading {
    /// The range, in millimetres; nothing where the sensor saw no finite
    /// range.
    pub range: Option<u32>,
    /// The northward part of the unit vector along the reading's bearing,
    /// in millionths.
    pub cos: i32,
    /// The eastward part of that unit vector, in millionths.
    pub sin: i32,
}

/// Whether a reading repels: its range is finite and less than the safe
/// distance.
pub open spec fn repels(reading: Reading, safe_distance: int) -> bool {
    reading.range is Some && reading.range->0 < safe_distance
}

/// How strongly a range repels, in millimetres: the gain (in thousandths)
/// times the part of the safe distance that the range falls short by.
pub open spec fn strength(range: int, safe_distance: int, gain: int) -> int {
    (gain * (safe_distance - range)) / safe_distance
}

/// The northward push of one reading: away from the reading's bearing.
pub open spec fn push_north(reading: Reading, safe_distance: int, gain: int) -> int {
    if repels(reading, safe_distance) {
        -toward_zero(
            reading.cos * strength(reading.range->0 as int, safe_distance, gain),
            UNIT as int,
        )
    } else {
        0
    }
}

/// The eastward push of one reading.
pub open spec fn push_east(reading: Reading, safe_distance: int, gain: int) -> int {
    if repels(reading, safe_distance) {
        -toward_zero(
            reading.sin * strength(reading.range->0 as int, safe_distance, gain),
            UNIT as int,
        )
    } else {
        0
    }
}

/// The northward push of all readings together.
pub open spec fn total_north(readings: Seq<Reading>, safe_distance: int, gain: int) -> int
    decreases readings.len(),
{
    if readings.len() == 0 {
        0
    } else {
        total_north(readings.drop_last(), safe_distance, gain) + push_north(
            readings.last(),
            safe_distance,
            gain,
        )
    }
}

/// The eastward push of all readings together.
pub open spec fn total_east(readings: Seq<Reading>, safe_distance: int, gain: int) -> int
    decreases readings.len(),
{
    if readings.len() == 0 {
        0
    } else {
        total_east(readings.drop_last(), safe_distance, gain) + push_east(
            readings.last(),
            safe_distance,
            gain,
        )
    }
}

/// What an avoidance field is: the latest scan, if there was one, and the
/// two constants of the repulsion.
pub struct AvoidanceModel {
    pub scan: Option<Seq<Reading>>,
    /// In millimetres.
    pub safe_distance: int,
    /// In thousandths.
    pub gain: int,
}

impl AvoidanceModel {
    /// The repulsion vector, north and east, in millimetres: nothing before
    /// the first scan, else the pushes of the latest scan's readings
    /// together, held to the range of a 64-bit integer.
    pub open spec fn vector(self) -> (int, int) {
        match self.scan {
            None => (0, 0),
            Some(readings) => (
                saturated(total_north(readings, self.safe_distance, self.gain)),
                saturated(total_east(readings, self.safe_distance, self.gain)),
            ),
        }
    }
}

/// The latest range scan of one agent: a single slot, in which each new scan
/// takes the place of the one before.
pub struct AvoidanceField {
    scan: Option<Vec<Reading>>,
    safe_distance: u32,
    gain: u32,
}

impl View for AvoidanceField {
    type V = AvoidanceModel;

    closed spec fn view(&self) -> AvoidanceModel {
        AvoidanceModel {
            scan: match self.scan {
                Some(readings) => Some(readings@),
                None => None,
            },
            safe_distance: self.safe_distance as int,
            gain: self.gain as int,
        }
    }
}

/// The push of one reading, north and east.
fn push_of(reading: Reading, safe_distance: u32, gain: u32) -> (r: (i64, i64))
    ensures
        r.0 == push_north(reading, safe_distance as int, gain as int),
        r.1 == push_east(reading, safe_distance as int, gain as int),
        -PUSH_LIMIT <= r.0 <= PUSH_LIMIT,
        -PUSH_LIMIT <= r.1 <= PUSH_LIMIT,
{
    match reading.range {
        Some(range) => {
            if range < safe_distance {
                proof {
                    assert(0 <= gain * (safe_distance - range) <= 0xffff_ffff * 0xffff_ffff)
                        by (nonlinear_arith)
                        requires
                            0 <= gain <= 0xffff_ffff,
                            0 < safe_distance - range <= 0xffff_ffff,
                    ;
                    assert(0 <= (gain * (safe_distance - range)) / (safe_distance as int) <= gain)
                        by (nonlinear_arith)
                        requires
                            0 <= gain,
                            0 < safe_distance - range <= safe_distance,
                    ;
                }
                let force: u64 = (gain as u64 * (safe_distance - range) as u64)
                    / safe_distance as u64;
                let north: i128 = scaled(reading.cos as i64, force, UNIT);
                let east: i128 = scaled(reading.sin as i64, force, UNIT);
                proof {
                    lemma_push_bound(reading.cos as int, force as int);
                    lemma_push_bound(reading.sin as int, force as int);
                }
                (-(north as i64), -(east as i64))
            } else {
                (0, 0)
            }
        },
        None => (0, 0),
    }
}

/// A push is no longer than the force behind it, whatever the unit vector.
proof fn lemma_push_bound(part: int, force: int)
    requires
        -0x8000_0000 <= part <= 0x7fff_ffff,
        0 <= force <= 0xffff_ffff,
    ensures
        -PUSH_LIMIT <= toward_zero(part * force, UNIT as int) <= PUSH_LIMIT,
{
    let x = part * force;
    assert(-0x8000_0000_0000_0000 <= x <= 0x8000_0000_0000_0000) by (nonlinear_arith)
        requires
            x == part * force,
            -0x8000_0000 <= part <= 0x7fff_ffff,
            0 <= force <= 0xffff_ffff,
    ;
    if x >= 0 {
        assert(0 <= x / 1_000_000 <= PUSH_LIMIT);
    } else {
        assert(0 <= (-x) / 1_000_000 <= PUSH_LIMIT);
    }
}

impl AvoidanceField {
    /// A field that has not seen a scan yet. The safe distance is in
    /// millimetres, the gain in thousandths.
    pub fn new(safe_distance: u32, gain: u32) -> (field: Self)
        ensures
            field@ == (AvoidanceModel {
                scan: None,
                safe_distance: safe_distance as int,
                gain: gain as int,
            }),
    {
        Self { scan: None, safe_distance, gain }
    }

    /// Takes a new scan in place of the one before.
    pub fn update_scan(&mut self, readings: Vec<Reading>)
        ensures
            final(self)@ == (AvoidanceModel { scan: Some(readings@), ..old(self)@ }),
    {
        self.scan = Some(readings);
    }

    /// The repulsion vector of the latest scan, north and east, in
    /// millimetres; nothing before the first scan.
    pub fn avoidance_vec(&self) -> (r: (i64, i64))
        ensures
            r.0 == self@.vector().0,
            r.1 == self@.vector().1,
    {
        match &self.scan {
            None => (0, 0),
            Some(readings) => {
                let mut north: i128 = 0;
                let mut east: i128 = 0;
                let mut i: usize = 0;
                while i < readings.len()
                    invariant
                        i <= readings@.len(),
                        north == total_north(
                            readings@.take(i as int),
                            self.safe_distance as int,
                            self.gain as int,
                        ),
                        east == total_east(
                            readings@.take(i as int),
                            self.safe_distance as int,
                            self.gain as int,
                        ),
                        -i * PUSH_LIMIT <= north <= i * PUSH_LIMIT,
                        -i * PUSH_LIMIT <= east <= i * PUSH_LIMIT,
                    decreases readings@.len() - i,
                {
                    let push = push_of(readings[i], self.safe_distance, self.gain);
                    proof {
                        assert(readings@.take(i + 1).drop_last() =~= readings@.take(i as int));
                        assert(i < 0x1_0000_0000_0000_0000);
                    }
                    north = north + push.0 as i128;
                    east = east + push.1 as i128;
                    i = i + 1;
                }
                proof {
                    assert(readings@.take(i as int) =~= readings@);
                }
                (saturate(north), saturate(east))
            },
        }
    }
}

} // verus!
