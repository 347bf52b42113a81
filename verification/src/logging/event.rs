//! Events of a mission, stamped with the time at which they were recorded.

use vstd::prelude::*;

verus! {

/// What kind of event it is.
pub enum EventTypeModel {
    TakeOff,
    Landing,
    WaypointReached,
    Detection(Seq<char>),
    CommsLoss,
    Other(Seq<char>),
}

/// The kind of an event; a detection and a free-form event carry a text.
#[derive(Debug, Clone, Eq)]
pub enum EventType {
    TakeOff,
    Landing,
    WaypointReached,
    Detection(String),
    CommsLoss,
    Other(String),
}

impl View for EventType {
    type V = EventTypeModel;

    open spec fn view(&self) -> EventTypeModel {
        match self {
            EventType::TakeOff => EventTypeModel::TakeOff,
            EventType::Landing => EventTypeModel::Landing,
            EventType::WaypointReached => EventTypeModel::WaypointReached,
            EventType::Detection(what) => EventTypeModel::Detection(what@),
            EventType::CommsLoss => EventTypeModel::CommsLoss,
            EventType::Other(what) => EventTypeModel::Other(what@),
        }
    }
}

impl PartialEq for EventType {
    fn eq(&self, other: &Self) -> (r: bool) {
        match (self, other) {
            (EventType::TakeOff, EventType::TakeOff) => true,
            (EventType::Landing, EventType::Landing) => true,
            (EventType::WaypointReached, EventType::WaypointReached) => true,
            (EventType::Detection(a), EventType::Detection(b)) => *a == *b,
            (EventType::CommsLoss, EventType::CommsLoss) => true,
            (EventType::Other(a), EventType::Other(b)) => *a == *b,
            _ => false,
        }
    }
}

impl vstd::std_specs::cmp::PartialEqSpecImpl for EventType {
    open spec fn obeys_eq_spec() -> bool {
        true
    }

    /// Two kinds are equal when they are the same kind with the same text.
    open spec fn eq_spec(&self, other: &Self) -> bool {
        self@ == other@
    }
}

/// What an event is.
pub struct EventModel {
    /// When it was recorded, in milliseconds since the start of 1970 (UTC).
    pub timestamp: int,
    pub drone_id: int,
    pub event_type: EventTypeModel,
    /// Where the agent was, in 1e-7 degree, if that is known.
    pub latitude: Option<int>,
    pub longitude: Option<int>,
}

/// Something that happened to an agent.
#[derive(Debug, Clone)]
pub struct Event {
    /// When it was recorded, in milliseconds since the start of 1970 (UTC).
    pub timestamp: i64,
    pub drone_id: u32,
    pub event_type: EventType,
    /// Where the agent was, in 1e-7 degree, if that is known.
    pub latitude: Option<i64>,
    pub longitude: Option<i64>,
}

/// An optional machine integer as an optional integer.
pub open spec fn option_int(value: Option<i64>) -> Option<int> {
    match value {
        Some(v) => Some(v as int),
        None => None,
    }
}

impl View for Event {
    type V = EventModel;

    open spec fn view(&self) -> EventModel {
        EventModel {
            timestamp: self.timestamp as int,
            drone_id: self.drone_id as int,
            event_type: self.event_type@,
            latitude: option_int(self.latitude),
            longitude: option_int(self.longitude),
        }
    }
}

/// The current time by `chrono::Utc::now`, as `DateTime::timestamp_millis`
/// gives it: milliseconds since the start of 1970 (UTC). Nothing is claimed
/// of the value: it is whatever the system clock says. `Utc::now` does not
/// return on a machine whose clock stands before 1970.
#[verifier::external_body]
fn now_millis() -> (millis: i64) {
    chrono::Utc::now().timestamp_millis()
}

impl Event {
    /// The event with the given stamp.
    pub fn at(
        timestamp: i64,
        drone_id: u32,
        event_type: EventType,
        latitude: Option<i64>,
        longitude: Option<i64>,
    ) -> (event: Self)
        ensures
            event == (Event { timestamp, drone_id, event_type, latitude, longitude }),
    {
        Self { timestamp, drone_id, event_type, latitude, longitude }
    }

    /// The event, stamped with the current time: everything but the stamp is
    /// as given.
    pub fn new_event(
        drone_id: u32,
        event_type: EventType,
        latitude: Option<i64>,
        longitude: Option<i64>,
    ) -> (event: Self)
        ensures
            event.drone_id == drone_id,
            event.event_type == event_type,
            event.latitude == latitude,
            event.longitude == longitude,
    {
        Event::at(now_millis(), drone_id, event_type, latitude, longitude)
    }
}

} // verus!
