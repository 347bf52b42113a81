//! The link metrics of one agent, and the status they amount to.

use vstd::prelude::*;

verus! {

/// A latency above this, in microseconds, degrades the link: half a second.
pub const LATENCY_LIMIT: i64 = 500_000;

/// A packet loss above this, in thousandths of a percent, degrades the
/// link: twenty percent.
pub const PACKET_LOSS_LIMIT: i64 = 20_000;

/// The state of a link.
#[derive(Debug, Clone, Copy, PartialEq, Eq, Structural)]
pub enum CommStats {
    Good,
    Degraded,
    Lost,
}

/// What the metrics of a link are.
pub struct CommsMetricsModel {
    /// In microseconds.
    pub latency: int,
    /// In thousandths of a percent.
    pub packet_loss: int,
    pub is_alive: bool,
}

impl CommsMetricsModel {
    /// The status of a link: lost if it is not alive; else degraded if the
    /// latency or the packet loss is above its limit; else good.
    pub open spec fn status(self) -> CommStats {
        if !self.is_alive {
            CommStats::Lost
        } else if self.latency > LATENCY_LIMIT || self.packet_loss > PACKET_LOSS_LIMIT {
            CommStats::Degraded
        } else {
            CommStats::Good
        }
    }
}

/// The link metrics of one agent.
#[derive(Debug, Clone, Copy)]
pub struct CommsMetrics {
    latency: i64,
    packet_loss: i64,
    is_alive: bool,
}

impl View for CommsMetrics {
    type V = CommsMetricsModel;

    closed spec fn view(&self) -> CommsMetricsModel {
        CommsMetricsModel {
            latency: self.latency as int,
            packet_loss: self.packet_loss as int,
            is_alive: self.is_alive,
        }
    }
}

impl CommsMetrics {
    /// The metrics of a link that is alive and has lost nothing yet.
    pub fn new_comms_metrics(drone_id: u32) -> (metrics: Self)
        ensures
            metrics@ == (CommsMetricsModel { latency: 0, packet_loss: 0, is_alive: true }),
    {
        Self { latency: 0, packet_loss: 0, is_alive: true }
    }

    /// The latency, in microseconds.
    pub fn get_latency_ms(&self) -> (r: i64)
        ensures
            r == self@.latency,
    {
        self.latency
    }

    /// The packet loss, in thousandths of a percent.
    pub fn get_packet_loss(&self) -> (r: i64)
        ensures
            r == self@.packet_loss,
    {
        self.packet_loss
    }

    pub fn get_is_alive(&self) -> (r: bool)
        ensures
            r == self@.is_alive,
    {
        self.is_alive
    }

    pub(crate) fn set_latency_ms(&mut self, latency: i64)
        ensures
            final(self)@ == (CommsMetricsModel { latency: latency as int, ..old(self)@ }),
    {
        self.latency = latency;
    }

    pub(crate) fn set_packet_loss(&mut self, packet_loss: i64)
        ensures
            final(self)@ == (CommsMetricsModel { packet_loss: packet_loss as int, ..old(self)@ }),
    {
        self.packet_loss = packet_loss;
    }

    pub(crate) fn set_is_alive(&mut self, is_alive: bool)
        ensures
            final(self)@ == (CommsMetricsModel { is_alive, ..old(self)@ }),
    {
        self.is_alive = is_alive;
    }

    /// The status of the link.
    pub fn get_comms_stats(&self) -> (stats: CommStats)
        ensures
            stats == self@.status(),
    {
        if !self.is_alive {
            CommStats::Lost
        } else if self.latency > LATENCY_LIMIT || self.packet_loss > PACKET_LOSS_LIMIT {
            CommStats::Degraded
        } else {
            CommStats::Good
        }
    }
}

} // verus!
