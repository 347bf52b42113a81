//! Fleet coordination core for area-search missions.
//!
//! Every quantity is held in fixed point, so that each rule of the library is
//! stated and proved over the integers:
//!
//! * angles (latitude, longitude) in units of 1e-7 degree,
//! * lengths (altitude, swath width, ranges) in millimetres,
//! * durations in milliseconds,
//! * confidence in parts per million, battery and packet loss in
//!   thousandths of a percent, latency in microseconds.

pub mod comms;
pub mod coordination;
pub mod coverage;
pub mod drone;
pub mod error;
pub mod flight;
pub mod logging;
pub mod mission;
pub mod system;
