//! The last known state of each agent.

pub mod manager;
pub mod state;

pub use manager::DroneManager;
pub use state::{DroneState, DroneStateModel};
