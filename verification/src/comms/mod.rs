//! Link quality of each agent.

pub mod comms_metrics;
pub mod manager;

pub use comms_metrics::{CommStats, CommsMetrics, CommsMetricsModel};
pub use manager::CommsManager;
