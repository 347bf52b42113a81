//! The states of the whole fleet, by agent.

use std::collections::HashMap;
use vstd::prelude::*;
use vstd::std_specs::iter::IteratorSpec;
use crate::drone::state::{DroneState, DroneStateModel};

verus! {

broadcast use vstd::std_specs::hash::group_hash_axioms;

/// The state of every registered agent.
pub struct DroneManager {
    drones: HashMap<u32, DroneState>,
}

impl View for DroneManager {
    type V = Map<u32, DroneStateModel>;

    closed spec fn view(&self) -> Map<u32, DroneStateModel> {
        self.drones@.map_values(|state: DroneState| state@)
    }
}

/// `HashMap::get_mut` of the standard library, on the map of states: a
/// mutable reference to the state under `drone_id`, or nothing where the map
/// has no such key. Believed, not proved: the map afterwards is the map
/// before, with the state under that key as the caller leaves it.
#[verifier::external_body]
fn state_mut(drones: &mut HashMap<u32, DroneState>, drone_id: u32) -> (r: Option<&mut DroneState>)
    ensures
        match r {
            Some(state) => {
                &&& old(drones)@.contains_key(drone_id)
                &&& *state == old(drones)@[drone_id]
                &&& final(drones)@ == old(drones)@.insert(drone_id, *final(state))
            },
            None => !old(drones)@.contains_key(drone_id) && final(drones)@ == old(drones)@,
        },
{
    drones.get_mut(&drone_id)
}

impl DroneManager {
    /// A manager with no agents.
    pub fn new_manager() -> (manager: Self)
        ensures
            manager@ == Map::<u32, DroneStateModel>::empty(),
    {
        let manager = Self { drones: HashMap::new() };
        assert(manager@ =~= Map::<u32, DroneStateModel>::empty());
        manager
    }

    /// Registers an agent in its initial state; an agent that is registered
    /// already is set back to it.
    pub fn add_drone(&mut self, drone_id: u32)
        ensures
            final(self)@ == old(self)@.insert(drone_id, DroneStateModel::initial(drone_id as int)),
    {
        self.drones.insert(drone_id, DroneState::new_drone(drone_id));
        assert(final(self)@ =~= old(self)@.insert(
            drone_id,
            DroneStateModel::initial(drone_id as int),
        ));
    }

    /// Forgets an agent.
    pub fn remove_drone(&mut self, drone_id: u32)
        ensures
            final(self)@ == old(self)@.remove(drone_id),
    {
        self.drones.remove(&drone_id);
        assert(final(self)@ =~= old(self)@.remove(drone_id));
    }

    /// The state of an agent, if it is registered.
    pub fn get_state_immut(&self, drone_id: u32) -> (r: Option<&DroneState>)
        ensures
            match r {
                Some(state) => self@.contains_key(drone_id) && state@ == self@[drone_id],
                None => !self@.contains_key(drone_id),
            },
    {
        self.drones.get(&drone_id)
    }

    /// The manager `after` is this manager but for the state of `drone_id`,
    /// which is `state`.
    spec fn differs_at(&self, after: DroneManager, drone_id: u32, state: DroneState) -> bool {
        after.drones@ == self.drones@.insert(drone_id, state)
    }

    proof fn lemma_differs_at(&self, after: DroneManager, drone_id: u32, state: DroneState)
        requires
            self.differs_at(after, drone_id, state),
        ensures
            after@ == self@.insert(drone_id, state@),
    {
        assert(after@ =~= self@.insert(drone_id, state@));
    }

    /// The state of an agent, if it is registered, to be changed in place:
    /// the manager afterwards holds that state as the caller leaves it, and
    /// the others as they were.
    pub fn get_state_mut(&mut self, drone_id: u32) -> (r: Option<&mut DroneState>)
        ensures
            match r {
                Some(state) => {
                    &&& old(self)@.contains_key(drone_id)
                    &&& state@ == old(self)@[drone_id]
                    &&& final(self)@ == old(self)@.insert(drone_id, final(state)@)
                },
                None => !old(self)@.contains_key(drone_id) && final(self)@ == old(self)@,
            },
    {
        let ghost before = *self;
        assert forall|after: DroneManager, state: DroneState|
            before.differs_at(after, drone_id, state) implies #[trigger] after@
            == before@.insert(drone_id, #[trigger] state@) by {
            before.lemma_differs_at(after, drone_id, state);
        }
        assert forall|after: DroneManager| after.drones@ == before.drones@ implies #[trigger] after@
            == before@ by {
            assert(after@ =~= before@);
        }
        state_mut(&mut self.drones, drone_id)
    }

    /// Every registered agent with its state, each once, in no particular
    /// order.
    pub fn drone_iterator(&self) -> (pairs: Vec<(u32, DroneState)>)
        ensures
            pairs@.len() == self@.dom().len(),
            forall|i: int|
                0 <= i < pairs@.len() ==> self@.contains_key((#[trigger] pairs@[i]).0)
                    && pairs@[i].1@ == self@[pairs@[i].0],
            forall|i: int, j: int|
                0 <= i < pairs@.len() && 0 <= j < pairs@.len() && i != j ==> pairs@[i].0
                    != pairs@[j].0,
            forall|id: u32|
                self@.contains_key(id) ==> exists|i: int|
                    0 <= i < pairs@.len() && (#[trigger] pairs@[i]).0 == id,
    {
        let mut pairs: Vec<(u32, DroneState)> = Vec::new();
        let ghost all = vstd::std_specs::hash::spec_hash_map_iter(&self.drones).remaining();
        for pair in it: self.drones.iter()
            invariant
                it.seq() == all,
                pairs@.len() == it.index(),
                forall|i: int|
                    0 <= i < pairs@.len() ==> pairs@[i] == (
                        *(#[trigger] it.seq()[i]).0,
                        *it.seq()[i].1,
                    ),
        {
            pairs.push((*pair.0, *pair.1));
        }
        proof {
            assert(self@.dom() =~= self.drones@.dom());
            assert(pairs@.len() == all.len());
            assert forall|i: int| 0 <= i < pairs@.len() implies self@.contains_key(
                (#[trigger] pairs@[i]).0,
            ) && pairs@[i].1@ == self@[pairs@[i].0] by {
                assert(self.drones@.contains_key(*all[i].0));
            }
            assert forall|i: int, j: int|
                0 <= i < pairs@.len() && 0 <= j < pairs@.len() && i != j implies pairs@[i].0
                != pairs@[j].0 by {
                assert(self.drones@.contains_key(*all[i].0));
                assert(self.drones@.contains_key(*all[j].0));
                assert(all[i] != all[j]);
            }
            assert forall|id: u32| self@.contains_key(id) implies exists|i: int|
                0 <= i < pairs@.len() && (#[trigger] pairs@[i]).0 == id by {
                assert(self.drones@.contains_key(id));
                let k = choose|k: int| 0 <= k < all.len() && all[k] == (&id, &self.drones@[id]);
                assert(pairs@[k].0 == id);
            }
        }
        pairs
    }
}

} // verus!
