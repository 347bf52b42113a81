//! Path following: an agent is walked from where it is to a target along the
//! straight line between them, in steps of fixed length, each step nudged by
//! the avoidance vector of the moment; the walk ends on the exact target.
//!
//! The follower decides where the next setpoint lies and how long to wait
//! after it. Committing the setpoint and waiting are the caller's part.

use vstd::prelude::*;
use crate::error::MissionError;
use crate::flight::arith::{floor_sqrt, isqrt, saturate, saturated, scaled, toward_zero};
use crate::flight::projection::LocalPoint;

verus! {

/// A commanded position in the local frame, in millimetres, with the
/// direction of travel as a vector (north, east); a heading of nothing means
/// a yaw of zero.
#[derive(Debug, Clone, Copy, PartialEq, Eq, Structural)]
pub struct Setpoint {
    pub north: i64,
    pub east: i64,
    pub down: i64,
    pub heading_north: i64,
    pub heading_east: i64,
}

/// What a follower is: the leg it walks, and how far it has come.
pub struct FollowerModel {
    pub start: LocalPoint,
    pub target: LocalPoint,
    /// The length of a step, in millimetres.
    pub step: int,
    /// The commanded height, downward, in millimetres.
    pub down: int,
    /// The wait after each step, in milliseconds.
    pub pace: int,
    /// The number of setpoints handed out so far.
    pub issued: int,
}

/// The wait after each step, in milliseconds: the time that one step takes
/// at the wanted speed (in millimetres per second), but no less than the
/// publish period.
pub open spec fn pace_of(step: int, speed: int, publish_period: int) -> int {
    if (step * 1000) / speed >= publish_period {
        (step * 1000) / speed
    } else {
        publish_period
    }
}

impl FollowerModel {
    /// The way north from start to target.
    pub open spec fn delta_north(self) -> int {
        self.target.north - self.start.north
    }

    /// The way east from start to target.
    pub open spec fn delta_east(self) -> int {
        self.target.east - self.start.east
    }

    /// The length of the leg, rounded down to the millimetre.
    pub open spec fn distance(self) -> int {
        floor_sqrt(
            self.delta_north() * self.delta_north() + self.delta_east() * self.delta_east(),
        )
    }

    /// The number of setpoints short of the target: one at each whole
    /// number of steps that is less than the length of the leg.
    pub open spec fn intermediates(self) -> int {
        if self.distance() <= 0 {
            0
        } else {
            (self.distance() - 1) / self.step
        }
    }

    /// The number of setpoints of the leg: the intermediate ones and the
    /// target.
    pub open spec fn commits(self) -> int {
        self.intermediates() + 1
    }

    /// The place on the line after `k + 1` steps.
    pub open spec fn on_line(self, k: int) -> (int, int) {
        (
            self.start.north + toward_zero(
                self.delta_north() * ((k + 1) * self.step),
                self.distance(),
            ),
            self.start.east + toward_zero(
                self.delta_east() * ((k + 1) * self.step),
                self.distance(),
            ),
        )
    }

    /// Setpoint `k` of the leg, under the avoidance vector of the moment.
    /// An intermediate setpoint is the place on the line plus the avoidance
    /// vector, held to the range of a 64-bit integer; the last one is the
    /// target itself. A leg without length has the target as its one
    /// setpoint, with no heading.
    pub open spec fn setpoint(self, k: int, avoidance: (i64, i64)) -> Setpoint {
        if k < self.intermediates() {
            Setpoint {
                north: saturated(self.on_line(k).0 + avoidance.0) as i64,
                east: saturated(self.on_line(k).1 + avoidance.1) as i64,
                down: self.down as i64,
                heading_north: self.delta_north() as i64,
                heading_east: self.delta_east() as i64,
            }
        } else {
            Setpoint {
                north: self.target.north as i64,
                east: self.target.east as i64,
                down: self.down as i64,
                heading_north: self.delta_north() as i64,
                heading_east: self.delta_east() as i64,
            }
        }
    }
}

/// A walk along one leg.
pub struct PathFollower {
    start: LocalPoint,
    target: LocalPoint,
    step: u32,
    down: i64,
    pace: u64,
    distance: u64,
    intermediates: u64,
    issued: u64,
}

impl View for PathFollower {
    type V = FollowerModel;

    closed spec fn view(&self) -> FollowerModel {
        FollowerModel {
            start: self.start,
            target: self.target,
            step: self.step as int,
            down: self.down as int,
            pace: self.pace as int,
            issued: self.issued as int,
        }
    }
}

/// A part of the way is no longer than the whole way.
proof fn lemma_part_of_way(delta: int, along: int, distance: int)
    requires
        0 <= along < distance,
    ensures
        delta >= 0 ==> 0 <= toward_zero(delta * along, distance) <= delta,
        delta <= 0 ==> delta <= toward_zero(delta * along, distance) <= 0,
{
    if delta >= 0 {
        assert(0 <= (delta * along) / distance <= delta) by (nonlinear_arith)
            requires
                0 <= delta,
                0 <= along < distance,
        ;
        assert(delta * along >= 0) by (nonlinear_arith)
            requires
                0 <= delta,
                0 <= along,
        ;
    } else {
        assert(0 <= ((-delta) * along) / distance <= -delta) by (nonlinear_arith)
            requires
                0 <= -delta,
                0 <= along < distance,
        ;
        assert(-(delta * along) == (-delta) * along) by (nonlinear_arith);
        assert((-delta) * along >= 0) by (nonlinear_arith)
            requires
                0 <= -delta,
                0 <= along,
        ;
        if delta * along == 0 {
            assert(0int / distance == 0) by (nonlinear_arith)
                requires
                    distance > 0,
            ;
        }
    }
}

impl PathFollower {
    #[verifier::type_invariant]
    spec fn inv(self) -> bool {
        &&& self.step > 0
        &&& self.distance == self@.distance()
        &&& self.intermediates == self@.intermediates()
        &&& self.issued <= self.intermediates + 1
        &&& self.intermediates * self.step < self.distance || self.distance == 0
    }

    /// A walk from `start` to `target` in steps of `step_length`
    /// millimetres, at `speed` millimetres per second, with setpoints no
    /// closer in time than `publish_period` milliseconds, at `altitude`
    /// millimetres above the origin. A step or a speed of nothing is
    /// refused.
    pub fn new(
        start: LocalPoint,
        target: LocalPoint,
        step_length: u32,
        speed: u32,
        publish_period: u32,
        altitude: i32,
    ) -> (r: Result<PathFollower, MissionError>)
        ensures
            match r {
                Ok(follower) => {
                    &&& step_length > 0
                    &&& speed > 0
                    &&& follower@ == (FollowerModel {
                        start,
                        target,
                        step: step_length as int,
                        down: -(altitude as int),
                        pace: pace_of(step_length as int, speed as int, publish_period as int),
                        issued: 0,
                    })
                },
                Err(e) => e == MissionError::InvalidConfiguration && (step_length == 0 || speed
                    == 0),
            },
    {
        if step_length == 0 || speed == 0 {
            return Err(MissionError::InvalidConfiguration);
        }
        let dn: i64 = target.north as i64 - start.north as i64;
        let de: i64 = target.east as i64 - start.east as i64;
        proof {
            assert(0 <= dn * dn <= 0xffff_ffff * 0xffff_ffff) by (nonlinear_arith)
                requires
                    -0xffff_ffff <= dn <= 0xffff_ffff,
            ;
            assert(0 <= de * de <= 0xffff_ffff * 0xffff_ffff) by (nonlinear_arith)
                requires
                    -0xffff_ffff <= de <= 0xffff_ffff,
            ;
        }
        let squares: u128 = (dn as i128 * dn as i128) as u128 + (de as i128 * de as i128) as u128;
        let distance: u64 = isqrt(squares);
        let intermediates: u64 = if distance == 0 {
            0
        } else {
            (distance - 1) / step_length as u64
        };
        let stride: u64 = (step_length as u64 * 1000) / speed as u64;
        let pace: u64 = if stride >= publish_period as u64 {
            stride
        } else {
            publish_period as u64
        };
        proof {
            if distance > 0 {
                assert(((distance - 1) / (step_length as int)) * step_length <= distance - 1)
                    by (nonlinear_arith)
                    requires
                        distance >= 1,
                        step_length > 0,
                ;
            }
        }
        Ok(
            PathFollower {
                start,
                target,
                step: step_length,
                down: -(altitude as i64),
                pace,
                distance,
                intermediates,
                issued: 0,
            },
        )
    }

    /// The wait after each setpoint, in milliseconds.
    pub fn pace(&self) -> (r: u64)
        ensures
            r == self@.pace,
    {
        self.pace
    }

    /// The length of the leg, in millimetres, rounded down.
    pub fn distance(&self) -> (r: u64)
        ensures
            r == self@.distance(),
    {
        proof {
            use_type_invariant(self);
        }
        self.distance
    }

    /// The number of setpoints that are still to come.
    pub fn remaining(&self) -> (r: u64)
        ensures
            r == self@.commits() - self@.issued,
            0 <= self@.issued <= self@.commits(),
    {
        proof {
            use_type_invariant(self);
        }
        self.intermediates + 1 - self.issued
    }

    /// The next setpoint of the walk, under the avoidance vector of the
    /// moment (north and east, in millimetres); nothing once the target has
    /// been handed out.
    pub fn next_setpoint(&mut self, avoidance: (i64, i64)) -> (r: Option<Setpoint>)
        ensures
            final(self)@ == (FollowerModel {
                issued: if old(self)@.issued < old(self)@.commits() {
                    old(self)@.issued + 1
                } else {
                    old(self)@.issued
                },
                ..old(self)@
            }),
            r == if old(self)@.issued < old(self)@.commits() {
                Some(old(self)@.setpoint(old(self)@.issued, avoidance))
            } else {
                None::<Setpoint>
            },
    {
        proof {
            use_type_invariant(&*self);
        }
        let dn: i64 = self.target.north as i64 - self.start.north as i64;
        let de: i64 = self.target.east as i64 - self.start.east as i64;
        if self.issued > self.intermediates {
            return None;
        }
        let k: u64 = self.issued;
        let setpoint = if k < self.intermediates {
            proof {
                assert((k + 1) * self.step <= self.intermediates * self.step) by (nonlinear_arith)
                    requires
                        k + 1 <= self.intermediates,
                        self.step >= 0,
                ;
                assert(0 <= (k + 1) * self.step) by (nonlinear_arith)
                    requires
                        k >= 0,
                        self.step >= 0,
                ;
                lemma_part_of_way(dn as int, (k + 1) * self.step, self.distance as int);
                lemma_part_of_way(de as int, (k + 1) * self.step, self.distance as int);
            }
            let along: u64 = (k + 1) * self.step as u64;
            let north: i128 = self.start.north as i128 + scaled(dn, along, self.distance);
            let east: i128 = self.start.east as i128 + scaled(de, along, self.distance);
            Setpoint {
                north: saturate(north + avoidance.0 as i128),
                east: saturate(east + avoidance.1 as i128),
                down: self.down,
                heading_north: dn,
                heading_east: de,
            }
        } else {
            Setpoint {
                north: self.target.north as i64,
                east: self.target.east as i64,
                down: self.down,
                heading_north: dn,
                heading_east: de,
            }
        };
        self.issued = k + 1;
        Some(setpoint)
    }
}

} // verus!
