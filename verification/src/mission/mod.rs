//! Waypoints and the area decomposition planner.

pub mod planner;
pub mod waypoint;

pub use planner::lawnmower_slice_search;
pub use waypoint::{Waypoint, WaypointModel};
