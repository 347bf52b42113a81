//! Flying one agent: its lifecycle, the local frame, avoidance and path
//! following.

pub mod arith;
pub mod avoidance;
pub mod follower;
pub mod lifecycle;
pub mod projection;
