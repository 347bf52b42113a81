//! The link metrics of the whole fleet, by agent.

use std::collections::HashMap;
use vstd::prelude::*;
use vstd::std_specs::iter::IteratorSpec;
use crate::comms::comms_metrics::{CommStats, CommsMetrics, CommsMetricsModel};

verus! {

broadcast use vstd::std_specs::hash::group_hash_axioms;

/// The link metrics of every registered agent.
pub struct CommsManager {
    drones: HashMap<u32, CommsMetrics>,
}

impl View for CommsManager {
    type V = Map<u32, CommsMetricsModel>;

    closed spec fn view(&self) -> Map<u32, CommsMetricsModel> {
        self.drones@.map_values(|metrics: CommsMetrics| metrics@)
    }
}

impl CommsManager {
    /// A manager with no agents.
    pub fn new_comms_manager() -> (manager: Self)
        ensures
            manager@ == Map::<u32, CommsMetricsModel>::empty(),
    {
        let manager = Self { drones: HashMap::new() };
        assert(manager@ =~= Map::<u32, CommsMetricsModel>::empty());
        manager
    }

    /// Registers an agent with fresh metrics; an agent that is registered
    /// already gets fresh metrics too.
    pub fn add_drone(&mut self, drone_id: u32)
        ensures
            final(self)@ == old(self)@.insert(
                drone_id,
                CommsMetricsModel { latency: 0, packet_loss: 0, is_alive: true },
            ),
    {
        self.drones.insert(drone_id, CommsMetrics::new_comms_metrics(drone_id));
        assert(final(self)@ =~= old(self)@.insert(
            drone_id,
            CommsMetricsModel { latency: 0, packet_loss: 0, is_alive: true },
        ));
    }

    /// Forgets an agent.
    pub fn remove_drone(&mut self, drone_id: u32)
        ensures
            final(self)@ == old(self)@.remove(drone_id),
    {
        self.drones.remove(&drone_id);
        assert(final(self)@ =~= old(self)@.remove(drone_id));
    }

    /// The metrics of an agent, if it is registered.
    pub fn get_metrics(&self, drone_id: u32) -> (r: Option<&CommsMetrics>)
        ensures
            match r {
                Some(metrics) => self@.contains_key(drone_id) && metrics@ == self@[drone_id],
                None => !self@.contains_key(drone_id),
            },
    {
        self.drones.get(&drone_id)
    }

    /// The status of an agent's link, if the agent is registered.
    pub fn get_status(&self, drone_id: u32) -> (r: Option<CommStats>)
        ensures
            match r {
                Some(stats) => self@.contains_key(drone_id) && stats == self@[drone_id].status(),
                None => !self@.contains_key(drone_id),
            },
    {
        match self.drones.get(&drone_id) {
            Some(metrics) => Some(metrics.get_comms_stats()),
            None => None,
        }
    }

    /// The metrics of an agent by value, if it is registered.
    fn lookup(&self, drone_id: u32) -> (r: Option<CommsMetrics>)
        ensures
            match r {
                Some(metrics) => self.drones@.contains_key(drone_id) && metrics
                    == self.drones@[drone_id],
                None => !self.drones@.contains_key(drone_id),
            },
    {
        match self.drones.get(&drone_id) {
            Some(metrics) => Some(*metrics),
            None => None,
        }
    }

    /// Sets all three metrics of an agent; nothing happens for an agent that
    /// is not registered. Latency is in microseconds, packet loss in
    /// thousandths of a percent.
    pub fn update_metrics(&mut self, drone_id: u32, latency: i64, packet_loss: i64, is_alive: bool)
        ensures
            final(self)@ == if old(self)@.contains_key(drone_id) {
                old(self)@.insert(
                    drone_id,
                    CommsMetricsModel { latency: latency as int, packet_loss: packet_loss as int, is_alive },
                )
            } else {
                old(self)@
            },
    {
        if let Some(mut metrics) = self.lookup(drone_id) {
            metrics.set_latency_ms(latency);
            metrics.set_packet_loss(packet_loss);
            metrics.set_is_alive(is_alive);
            self.drones.insert(drone_id, metrics);
        }
        assert(final(self)@ =~= if old(self)@.contains_key(drone_id) {
            old(self)@.insert(
                drone_id,
                CommsMetricsModel { latency: latency as int, packet_loss: packet_loss as int, is_alive },
            )
        } else {
            old(self)@
        });
    }

    /// Sets the latency of an agent, in microseconds; nothing happens for an
    /// agent that is not registered.
    pub fn update_latency_ms(&mut self, drone_id: u32, latency: i64)
        ensures
            final(self)@ == if old(self)@.contains_key(drone_id) {
                old(self)@.insert(
                    drone_id,
                    CommsMetricsModel { latency: latency as int, ..old(self)@[drone_id] },
                )
            } else {
                old(self)@
            },
    {
        if let Some(mut metrics) = self.lookup(drone_id) {
            metrics.set_latency_ms(latency);
            self.drones.insert(drone_id, metrics);
        }
        assert(final(self)@ =~= if old(self)@.contains_key(drone_id) {
            old(self)@.insert(
                drone_id,
                CommsMetricsModel { latency: latency as int, ..old(self)@[drone_id] },
            )
        } else {
            old(self)@
        });
    }

    /// Sets the packet loss of an agent, in thousandths of a percent;
    /// nothing happens for an agent that is not registered.
    pub fn update_packet_loss(&mut self, drone_id: u32, packet_loss: i64)
        ensures
            final(self)@ == if old(self)@.contains_key(drone_id) {
                old(self)@.insert(
                    drone_id,
                    CommsMetricsModel { packet_loss: packet_loss as int, ..old(self)@[drone_id] },
                )
            } else {
                old(self)@
            },
    {
        if let Some(mut metrics) = self.lookup(drone_id) {
            metrics.set_packet_loss(packet_loss);
            self.drones.insert(drone_id, metrics);
        }
        assert(final(self)@ =~= if old(self)@.contains_key(drone_id) {
            old(self)@.insert(
                drone_id,
                CommsMetricsModel { packet_loss: packet_loss as int, ..old(self)@[drone_id] },
            )
        } else {
            old(self)@
        });
    }

    /// Sets whether the link of an agent is alive; nothing happens for an
    /// agent that is not registered.
    pub fn update_is_alive(&mut self, drone_id: u32, is_alive: bool)
        ensures
            final(self)@ == if old(self)@.contains_key(drone_id) {
                old(self)@.insert(drone_id, CommsMetricsModel { is_alive, ..old(self)@[drone_id] })
            } else {
                old(self)@
            },
    {
        if let Some(mut metrics) = self.lookup(drone_id) {
            metrics.set_is_alive(is_alive);
            self.drones.insert(drone_id, metrics);
        }
        assert(final(self)@ =~= if old(self)@.contains_key(drone_id) {
            old(self)@.insert(drone_id, CommsMetricsModel { is_alive, ..old(self)@[drone_id] })
        } else {
            old(self)@
        });
    }

    /// The registered agents, each once, in no particular order.
    pub fn list_drones(&self) -> (ids: Vec<u32>)
        ensures
            ids@.no_duplicates(),
            ids@.to_set() == self@.dom(),
    {
        let mut ids: Vec<u32> = Vec::new();
        let ghost keys = vstd::std_specs::hash::spec_keys_iter(&self.drones).remaining();
        for id in it: self.drones.keys()
            invariant
                it.seq() == keys,
                ids@.len() == it.index(),
                forall|i: int| 0 <= i < ids@.len() ==> ids@[i] == *(#[trigger] it.seq()[i]),
        {
            ids.push(*id);
        }
        proof {
            assert(ids@ =~= keys.unref());
            assert(self@.dom() =~= self.drones@.dom());
            assert forall|i: int, j: int|
                0 <= i < ids@.len() && 0 <= j < ids@.len() && i != j implies ids@[i]
                != ids@[j] by {
                assert(keys[i] != keys[j]);
            }
        }
        ids
    }
}

} // verus!
