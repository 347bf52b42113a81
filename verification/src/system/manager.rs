//! One manager over the states, the links, the log and the grid.

use vstd::prelude::*;
use vstd::string::StringExecFns;
use crate::comms::comms_metrics::CommsMetricsModel;
use crate::comms::manager::CommsManager;
use crate::coverage::grid::{CellModel, Grid};
use crate::drone::manager::DroneManager;
use crate::drone::state::DroneStateModel;
use crate::logging::event::{Event, EventModel, EventType, EventTypeModel};
use crate::logging::logger::{borrowed_view, DataLoger};
use crate::logging::text::{decimal, decimal_digits};
use crate::mission::waypoint::Waypoint;

verus! {

/// The fleet: the state and the link of each agent, the log, and the
/// coverage grid once it has been laid out.
pub struct SystemManager {
    pub drone: DroneManager,
    pub comms: CommsManager,
    pub logger: DataLoger,
    pub grid: Option<Grid>,
}

/// `after` is `before` with one more event at its end, which is as given but
/// for its stamp.
pub open spec fn appended(
    before: Seq<EventModel>,
    after: Seq<EventModel>,
    drone_id: int,
    event_type: EventTypeModel,
    latitude: Option<int>,
    longitude: Option<int>,
) -> bool {
    &&& after.len() == before.len() + 1
    &&& after.drop_last() == before
    &&& after.last().drone_id == drone_id
    &&& after.last().event_type == event_type
    &&& after.last().latitude == latitude
    &&& after.last().longitude == longitude
}

/// The text of the event that records a new agent.
pub open spec fn added_text() -> Seq<char> {
    "Drone Added"@
}

/// The text of the event that records a mission of `count` waypoints.
pub open spec fn mission_text(count: nat) -> Seq<char> {
    "Mission assigned with waypoints: "@ + decimal_digits(count)
}

impl SystemManager {
    /// A fleet without agents, log entries or grid.
    pub fn new_system_manager() -> (system: Self)
        ensures
            system.drone@ == Map::<u32, DroneStateModel>::empty(),
            system.comms@ == Map::<u32, CommsMetricsModel>::empty(),
            system.logger@ == Seq::<EventModel>::empty(),
            system.grid is None,
    {
        Self {
            drone: DroneManager::new_manager(),
            comms: CommsManager::new_comms_manager(),
            logger: DataLoger::new_dataloger(),
            grid: None,
        }
    }

    /// Registers an agent, with its initial state and fresh link metrics,
    /// and records that in the log.
    pub fn add_drone(&mut self, drone_id: u32)
        ensures
            final(self).drone@ == old(self).drone@.insert(
                drone_id,
                DroneStateModel::initial(drone_id as int),
            ),
            final(self).comms@ == old(self).comms@.insert(
                drone_id,
                CommsMetricsModel { latency: 0, packet_loss: 0, is_alive: true },
            ),
            appended(
                old(self).logger@,
                final(self).logger@,
                drone_id as int,
                EventTypeModel::Other(added_text()),
                None,
                None,
            ),
            final(self).grid == old(self).grid,
    {
        self.drone.add_drone(drone_id);
        self.comms.add_drone(drone_id);
        let what = String::from_str("Drone Added");
        let event = Event::new_event(drone_id, EventType::Other(what), None, None);
        self.logger.add_event(event);
        assert(final(self).logger@.drop_last() =~= old(self).logger@);
    }

    /// Records in the log that a mission was given to an agent, with the
    /// number of its waypoints and the agent's position. Nothing happens for
    /// an agent that is not registered.
    pub fn add_mission(&mut self, drone_id: u32, waypoints: Vec<Waypoint>)
        ensures
            final(self).drone@ == old(self).drone@,
            final(self).comms@ == old(self).comms@,
            final(self).grid == old(self).grid,
            if old(self).drone@.contains_key(drone_id) {
                appended(
                    old(self).logger@,
                    final(self).logger@,
                    drone_id as int,
                    EventTypeModel::Other(mission_text(waypoints@.len())),
                    Some(old(self).drone@[drone_id].latitude),
                    Some(old(self).drone@[drone_id].longitude),
                )
            } else {
                final(self).logger@ == old(self).logger@
            },
    {
        let place = match self.drone.get_state_immut(drone_id) {
            Some(state) => Some((state.get_latitude(), state.get_longitude())),
            None => None,
        };
        if let Some((latitude, longitude)) = place {
            let mut what = String::from_str("Mission assigned with waypoints: ");
            let count = decimal(waypoints.len() as u64);
            what.append(count.as_str());
            let event = Event::new_event(
                drone_id,
                EventType::Other(what),
                Some(latitude as i64),
                Some(longitude as i64),
            );
            self.logger.add_event(event);
            assert(final(self).logger@.drop_last() =~= old(self).logger@);
        }
    }

    /// Records a position report of an agent, clamped to the globe, and logs
    /// the place as reported. Nothing happens for an agent that is not
    /// registered. Angles are in 1e-7 degree, the altitude in millimetres.
    pub fn update_drone_position(
        &mut self,
        drone_id: u32,
        latitude: i64,
        longitude: i64,
        altitude: i64,
    )
        ensures
            final(self).comms@ == old(self).comms@,
            final(self).grid == old(self).grid,
            if old(self).drone@.contains_key(drone_id) {
                &&& final(self).drone@ == old(self).drone@.insert(
                    drone_id,
                    old(self).drone@[drone_id].at_position(
                        latitude as int,
                        longitude as int,
                        altitude as int,
                    ),
                )
                &&& appended(
                    old(self).logger@,
                    final(self).logger@,
                    drone_id as int,
                    EventTypeModel::WaypointReached,
                    Some(latitude as int),
                    Some(longitude as int),
                )
            } else {
                final(self).drone@ == old(self).drone@ && final(self).logger@ == old(
                    self,
                ).logger@
            },
    {
        let known = match self.drone.get_state_mut(drone_id) {
            Some(state) => {
                state.update_position(latitude, longitude, altitude);
                true
            },
            None => false,
        };
        if known {
            let event = Event::new_event(
                drone_id,
                EventType::WaypointReached,
                Some(latitude),
                Some(longitude),
            );
            self.logger.add_event(event);
            assert(final(self).logger@.drop_last() =~= old(self).logger@);
        }
    }

    /// Sets the link metrics of an agent; nothing happens for an agent that
    /// is not registered. Latency is in microseconds, packet loss in
    /// thousandths of a percent.
    pub fn update_comms(&mut self, drone_id: u32, latency: i64, packet_loss: i64, is_alive: bool)
        ensures
            final(self).drone@ == old(self).drone@,
            final(self).logger@ == old(self).logger@,
            final(self).grid == old(self).grid,
            final(self).comms@ == if old(self).comms@.contains_key(drone_id) {
                old(self).comms@.insert(
                    drone_id,
                    CommsMetricsModel { latency: latency as int, packet_loss: packet_loss as int, is_alive },
                )
            } else {
                old(self).comms@
            },
    {
        self.comms.update_metrics(drone_id, latency, packet_loss, is_alive);
    }

    /// The events of one agent, in the order of the log.
    pub fn get_logs(&self, drone_id: u32) -> (events: Vec<&Event>)
        ensures
            borrowed_view(events@) == self.logger@.filter(
                |e: EventModel| e.drone_id == drone_id,
            ),
    {
        self.logger.get_drone_events(drone_id)
    }

    /// Lays out a fresh coverage grid of `rows` by `cols` cells, in place of
    /// any earlier one.
    pub fn init_grid(&mut self, rows: u32, cols: u32)
        ensures
            final(self).drone@ == old(self).drone@,
            final(self).comms@ == old(self).comms@,
            final(self).logger@ == old(self).logger@,
            final(self).grid is Some,
            final(self).grid->0.wf(),
            final(self).grid->0.spec_rows() == rows,
            final(self).grid->0.spec_cols() == cols,
            forall|r: int, c: int|
                0 <= r < rows && 0 <= c < cols ==> (#[trigger] final(self).grid->0@[r][c])
                    == CellModel::fresh(r, c),
    {
        self.grid = Some(Grid::new_grid(rows, cols));
    }

    /// The registered agents, each once, in no particular order.
    pub fn list_drones(&self) -> (ids: Vec<u32>)
        ensures
            ids@.no_duplicates(),
            ids@.to_set() == self.drone@.dom(),
    {
        let pairs = self.drone.drone_iterator();
        let mut ids: Vec<u32> = Vec::new();
        let mut i: usize = 0;
        while i < pairs.len()
            invariant
                i <= pairs@.len(),
                ids@.len() == i,
                forall|j: int| 0 <= j < i ==> (#[trigger] ids@[j]) == pairs@[j].0,
            decreases pairs@.len() - i,
        {
            ids.push(pairs[i].0);
            i = i + 1;
        }
        proof {
            assert forall|id: u32| ids@.to_set().contains(id) <==> self.drone@.dom().contains(
                id,
            ) by {
                if ids@.to_set().contains(id) {
                    let j = choose|j: int| 0 <= j < ids@.len() && ids@[j] == id;
                    assert(self.drone@.contains_key(pairs@[j].0));
                }
                if self.drone@.contains_key(id) {
                    let j = choose|j: int| 0 <= j < pairs@.len() && (#[trigger] pairs@[j]).0 == id;
                    assert(ids@[j] == id);
                }
            }
            assert(ids@.to_set() =~= self.drone@.dom());
        }
        ids
    }
}

} // verus!
