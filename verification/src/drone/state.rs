//! The last known state of one agent.

use vstd::prelude::*;

verus! {

/// A quarter turn, in 1e-7 degree: the bound of a latitude.
pub const LATITUDE_LIMIT: i32 = 900_000_000;

/// A half turn, in 1e-7 degree: the bound of a longitude.
pub const LONGITUDE_LIMIT: i32 = 1_800_000_000;

/// A full battery, in thousandths of a percent.
pub const BATTERY_FULL: u32 = 100_000;

/// What the state of an agent is.
pub struct DroneStateModel {
    pub drone_id: int,
    /// In 1e-7 degree.
    pub latitude: int,
    /// In 1e-7 degree.
    pub longitude: int,
    /// In millimetres.
    pub altitude: int,
    /// In thousandths of a percent.
    pub battery: int,
    pub is_connected: bool,
}

impl DroneStateModel {
    /// The invariant of a state: the position is on the globe and not below
    /// the ground, and the battery holds between nothing and a full charge.
    pub open spec fn wf(self) -> bool {
        &&& -LATITUDE_LIMIT <= self.latitude <= LATITUDE_LIMIT
        &&& -LONGITUDE_LIMIT <= self.longitude <= LONGITUDE_LIMIT
        &&& 0 <= self.altitude
        &&& 0 <= self.battery <= BATTERY_FULL
    }

    /// The state of an agent of which nothing is known yet: at the origin,
    /// fully charged, not connected.
    pub open spec fn initial(drone_id: int) -> DroneStateModel {
        DroneStateModel {
            drone_id,
            latitude: 0,
            longitude: 0,
            altitude: 0,
            battery: BATTERY_FULL as int,
            is_connected: false,
        }
    }

    /// The state after a position report, each coordinate clamped to its
    /// range.
    pub open spec fn at_position(self, latitude: int, longitude: int, altitude: int) -> DroneStateModel {
        DroneStateModel {
            latitude: clamp(latitude, -LATITUDE_LIMIT as int, LATITUDE_LIMIT as int),
            longitude: clamp(longitude, -LONGITUDE_LIMIT as int, LONGITUDE_LIMIT as int),
            altitude: if altitude < 0 {
                0
            } else {
                altitude
            },
            ..self
        }
    }
}

/// `value` brought into the range from `low` to `high`.
pub open spec fn clamp(value: int, low: int, high: int) -> int {
    if value < low {
        low
    } else if value > high {
        high
    } else {
        value
    }
}

/// The last known state of one agent.
#[derive(Debug, Clone, Copy)]
pub struct DroneState {
    drone_id: u32,
    latitude: i32,
    longitude: i32,
    altitude: i64,
    battery: u32,
    is_connected: bool,
}

impl View for DroneState {
    type V = DroneStateModel;

    closed spec fn view(&self) -> DroneStateModel {
        DroneStateModel {
            drone_id: self.drone_id as int,
            latitude: self.latitude as int,
            longitude: self.longitude as int,
            altitude: self.altitude as int,
            battery: self.battery as int,
            is_connected: self.is_connected,
        }
    }
}

/// `value` brought into the range from `low` to `high`.
fn clamp_to(value: i64, low: i64, high: i64) -> (r: i64)
    requires
        low <= high,
    ensures
        r == clamp(value as int, low as int, high as int),
        low <= r <= high,
{
    if value < low {
        low
    } else if value > high {
        high
    } else {
        value
    }
}

impl DroneState {
    #[verifier::type_invariant]
    spec fn inv(self) -> bool {
        self@.wf()
    }

    /// The state of an agent of which nothing is known yet.
    pub fn new_drone(drone_id: u32) -> (state: Self)
        ensures
            state@ == DroneStateModel::initial(drone_id as int),
    {
        Self {
            drone_id,
            latitude: 0,
            longitude: 0,
            altitude: 0,
            battery: BATTERY_FULL,
            is_connected: false,
        }
    }

    pub fn get_drone_id(&self) -> (r: u32)
        ensures
            r == self@.drone_id,
    {
        self.drone_id
    }

    /// The latitude, in 1e-7 degree.
    pub fn get_latitude(&self) -> (r: i32)
        ensures
            r == self@.latitude,
            self@.wf(),
    {
        proof {
            use_type_invariant(self);
        }
        self.latitude
    }

    /// The longitude, in 1e-7 degree.
    pub fn get_longitude(&self) -> (r: i32)
        ensures
            r == self@.longitude,
            self@.wf(),
    {
        proof {
            use_type_invariant(self);
        }
        self.longitude
    }

    /// The altitude, in millimetres.
    pub fn get_altitude(&self) -> (r: i64)
        ensures
            r == self@.altitude,
            self@.wf(),
    {
        proof {
            use_type_invariant(self);
        }
        self.altitude
    }

    /// The battery level, in thousandths of a percent.
    pub fn get_battery(&self) -> (r: u32)
        ensures
            r == self@.battery,
            self@.wf(),
    {
        proof {
            use_type_invariant(self);
        }
        self.battery
    }

    pub fn is_connected(&self) -> (r: bool)
        ensures
            r == self@.is_connected,
    {
        self.is_connected
    }

    pub fn connect_drone(&mut self)
        ensures
            final(self)@ == (DroneStateModel { is_connected: true, ..old(self)@ }),
    {
        proof {
            use_type_invariant(&*self);
        }
        self.is_connected = true;
    }

    pub fn disconnect_drone(&mut self)
        ensures
            final(self)@ == (DroneStateModel { is_connected: false, ..old(self)@ }),
    {
        proof {
            use_type_invariant(&*self);
        }
        self.is_connected = false;
    }

    /// Records a position report: latitude and longitude in 1e-7 degree,
    /// altitude in millimetres, each clamped to its range.
    pub fn update_position(&mut self, latitude: i64, longitude: i64, altitude: i64)
        ensures
            final(self)@ == old(self)@.at_position(
                latitude as int,
                longitude as int,
                altitude as int,
            ),
            final(self)@.wf(),
    {
        proof {
            use_type_invariant(&*self);
        }
        let lat: i32 = clamp_to(latitude, -(LATITUDE_LIMIT as i64), LATITUDE_LIMIT as i64) as i32;
        let lon: i32 = clamp_to(longitude, -(LONGITUDE_LIMIT as i64), LONGITUDE_LIMIT as i64) as i32;
        let alt: i64 = if altitude < 0 {
            0
        } else {
            altitude
        };
        *self = Self {
            drone_id: self.drone_id,
            latitude: lat,
            longitude: lon,
            altitude: alt,
            battery: self.battery,
            is_connected: self.is_connected,
        };
    }

    /// Records the battery level, in thousandths of a percent, clamped to
    /// the range from nothing to a full charge.
    pub fn upadate_battery(&mut self, battery: i64)
        ensures
            final(self)@ == (DroneStateModel {
                battery: clamp(battery as int, 0, BATTERY_FULL as int),
                ..old(self)@
            }),
            final(self)@.wf(),
    {
        proof {
            use_type_invariant(&*self);
        }
        self.battery = clamp_to(battery, 0, BATTERY_FULL as i64) as u32;
    }
}

} // verus!
