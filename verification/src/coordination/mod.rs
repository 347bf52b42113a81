//! Flying the fleet: when an agent counts as arrived, and in which order the
//! agents are launched, released, landed and disarmed.

pub mod coordinator;
pub mod rendezvous;
