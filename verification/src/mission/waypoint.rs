//! A single navigation target.

use vstd::prelude::*;

verus! {

/// What a waypoint is: four integers.
pub struct WaypointModel {
    /// Latitude, in 1e-7 degree.
    pub latitude: int,
    /// Longitude, in 1e-7 degree.
    pub longitude: int,
    /// Altitude above the launch point, in millimetres.
    pub altitude: int,
    /// Time to hold at the waypoint, in milliseconds.
    pub hover_time: int,
}

/// A navigation target. Everything but the hover time is fixed at creation.
#[derive(Debug, Clone, Copy)]
pub struct Waypoint {
    longitude: i32,
    latitude: i32,
    altitude: i32,
    hover_time: u32,
}

impl View for Waypoint {
    type V = WaypointModel;

    closed spec fn view(&self) -> WaypointModel {
        WaypointModel {
            latitude: self.latitude as int,
            longitude: self.longitude as int,
            altitude: self.altitude as int,
            hover_time: self.hover_time as int,
        }
    }
}

impl Waypoint {
    /// A waypoint at the given place, with no hover time.
    pub fn new_waypoint(latitude: i32, longitude: i32, altitude: i32) -> (w: Self)
        ensures
            w@ == (WaypointModel {
                latitude: latitude as int,
                longitude: longitude as int,
                altitude: altitude as int,
                hover_time: 0,
            }),
    {
        Self { latitude, longitude, altitude, hover_time: 0 }
    }

    pub fn get_latitude(&self) -> (r: i32)
        ensures
            r == self@.latitude,
    {
        self.latitude
    }

    pub fn get_longitude(&self) -> (r: i32)
        ensures
            r == self@.longitude,
    {
        self.longitude
    }

    pub fn get_altitude(&self) -> (r: i32)
        ensures
            r == self@.altitude,
    {
        self.altitude
    }

    pub fn get_hover_time(&self) -> (r: u32)
        ensures
            r == self@.hover_time,
    {
        self.hover_time
    }

    /// Sets the hover time, in milliseconds, and leaves the place as it is.
    pub fn update_hover_time(&mut self, millis: u32)
        ensures
            final(self)@ == (WaypointModel { hover_time: millis as int, ..old(self)@ }),
    {
        self.hover_time = millis;
    }
}

} // verus!
