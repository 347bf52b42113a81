//! The fleet as a whole.

pub mod manager;

pub use manager::SystemManager;
