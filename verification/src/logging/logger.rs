//! The log: events in the order in which they were added.

use vstd::prelude::*;
use crate::logging::event::{Event, EventModel, EventType};

verus! {

/// The events of a mission, oldest first.
#[derive(Debug, Clone)]
pub struct DataLoger {
    pub logs: Vec<Event>,
}

/// The models of a sequence of events.
pub open spec fn events_view(events: Seq<Event>) -> Seq<EventModel> {
    Seq::new(events.len(), |i: int| events[i]@)
}

/// The models of a sequence of borrowed events.
pub open spec fn borrowed_view(events: Seq<&Event>) -> Seq<EventModel> {
    Seq::new(events.len(), |i: int| events[i]@)
}

impl View for DataLoger {
    type V = Seq<EventModel>;

    open spec fn view(&self) -> Seq<EventModel> {
        events_view(self.logs@)
    }
}

impl DataLoger {
    /// An empty log.
    pub fn new_dataloger() -> (logger: Self)
        ensures
            logger@ == Seq::<EventModel>::empty(),
    {
        let logger = Self { logs: Vec::new() };
        assert(logger@ =~= Seq::<EventModel>::empty());
        logger
    }

    /// Adds an event at the end of the log.
    pub fn add_event(&mut self, event: Event)
        ensures
            final(self)@ == old(self)@.push(event@),
            final(self).logs@ == old(self).logs@.push(event),
    {
        self.logs.push(event);
        assert(final(self)@ =~= old(self)@.push(event@));
    }

    /// The events of one agent, in the order of the log.
    pub fn get_drone_events(&self, drone_id: u32) -> (events: Vec<&Event>)
        ensures
            borrowed_view(events@) == self@.filter(|e: EventModel| e.drone_id == drone_id),
    {
        let ghost pred = |e: EventModel| e.drone_id == drone_id;
        let mut events: Vec<&Event> = Vec::new();
        let mut i: usize = 0;
        proof {
            reveal(Seq::filter);
            assert(self@.take(0) =~= Seq::<EventModel>::empty());
            assert(borrowed_view(events@) =~= self@.take(0).filter(pred));
        }
        while i < self.logs.len()
            invariant
                i <= self.logs@.len(),
                pred == |e: EventModel| e.drone_id == drone_id,
                borrowed_view(events@) == self@.take(i as int).filter(pred),
            decreases self.logs@.len() - i,
        {
            let event = &self.logs[i];
            proof {
                reveal(Seq::filter);
                assert(self@.take(i + 1).drop_last() =~= self@.take(i as int));
                assert(self@.take(i + 1).last() == event@);
            }
            let ghost before = borrowed_view(events@);
            if event.drone_id == drone_id {
                events.push(event);
                assert(borrowed_view(events@) =~= before.push(event@));
            }
            i = i + 1;
        }
        proof {
            assert(self@.take(i as int) =~= self@);
        }
        events
    }

    /// The events of one kind, in the order of the log.
    pub fn get_event_by_type(&self, event_type: EventType) -> (events: Vec<&Event>)
        ensures
            borrowed_view(events@) == self@.filter(
                |e: EventModel| e.event_type == event_type@,
            ),
    {
        let ghost pred = |e: EventModel| e.event_type == event_type@;
        let mut events: Vec<&Event> = Vec::new();
        let mut i: usize = 0;
        proof {
            reveal(Seq::filter);
            assert(self@.take(0) =~= Seq::<EventModel>::empty());
            assert(borrowed_view(events@) =~= self@.take(0).filter(pred));
        }
        while i < self.logs.len()
            invariant
                i <= self.logs@.len(),
                pred == |e: EventModel| e.event_type == event_type@,
                borrowed_view(events@) == self@.take(i as int).filter(pred),
            decreases self.logs@.len() - i,
        {
            let event = &self.logs[i];
            proof {
                reveal(Seq::filter);
                assert(self@.take(i + 1).drop_last() =~= self@.take(i as int));
                assert(self@.take(i + 1).last() == event@);
            }
            let ghost before = borrowed_view(events@);
            if event.event_type == event_type {
                events.push(event);
                assert(borrowed_view(events@) =~= before.push(event@));
            }
            i = i + 1;
        }
        proof {
            assert(self@.take(i as int) =~= self@);
        }
        events
    }
}

} // verus!
