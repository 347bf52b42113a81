//! The order of a mission over the whole fleet: the agents are launched one
//! after the other, each only once the one before it holds at its first
//! point; once all hold, all are released to fly their missions; once all
//! have finished, all are landed, and after the descent all are disarmed.
//!
//! The coordinator decides; launching, flying and waiting are the caller's
//! part, which reports what happened as an event and gets the next action.

use vstd::prelude::*;
use crate::error::MissionError;

verus! {

/// What the caller reports to the coordinator.
#[derive(Debug, Clone, Copy, PartialEq, Eq, Structural)]
pub enum FleetEvent {
    /// The mission begins.
    Start,
    /// The agent has taken off and holds at its first point.
    HoldReached(u32),
    /// The agent has passed the last waypoint of its mission.
    TraversalFinished(u32),
    /// The wait for the descent has run out.
    DescentElapsed,
}

/// What the coordinator asks of the caller.
#[derive(Debug, Clone, Copy, PartialEq, Eq, Structural)]
pub enum FleetAction {
    /// Enable offboard mode for the agent, arm it, let it take off and send
    /// it to its first point.
    Launch(u32),
    /// Let every agent fly its mission, each on its own.
    ReleaseAll,
    /// Command every agent to land.
    LandAll,
    /// Command every agent to disarm.
    DisarmAll,
    /// Go on as before.
    Nothing,
}

/// Where the fleet is in its mission.
pub enum StageModel {
    /// The mission has not begun.
    Idle,
    /// The agent with this index is on its way to its first point; those
    /// before it hold at theirs, those after it wait on the ground.
    Launching(int),
    /// The agents fly their missions; the flags say which have finished.
    Traversing(Seq<bool>),
    /// The agents descend.
    Landing,
    /// The agents are on the ground, disarmed.
    Done,
}

/// What a coordinator is.
pub struct FleetModel {
    /// The number of agents, one at least.
    pub agents: int,
    pub stage: StageModel,
}

/// Whether every flag is set.
pub open spec fn all_set(flags: Seq<bool>) -> bool {
    forall|i: int| 0 <= i < flags.len() ==> flags[i]
}

impl FleetModel {
    /// The invariant of a coordinator.
    pub open spec fn wf(self) -> bool {
        &&& 1 <= self.agents <= u32::MAX
        &&& match self.stage {
            StageModel::Launching(current) => 0 <= current < self.agents,
            StageModel::Traversing(finished) => finished.len() == self.agents && !all_set(
                finished,
            ),
            _ => true,
        }
    }

    /// The fleet after an event, and what is to be done about it. An event
    /// that does not belong to the stage changes nothing and asks for
    /// nothing.
    pub open spec fn step(self, event: FleetEvent) -> (FleetModel, FleetAction) {
        match (self.stage, event) {
            (StageModel::Idle, FleetEvent::Start) => (
                FleetModel { stage: StageModel::Launching(0), ..self },
                FleetAction::Launch(0),
            ),
            (StageModel::Launching(current), FleetEvent::HoldReached(agent)) => {
                if agent != current {
                    (self, FleetAction::Nothing)
                } else if current + 1 < self.agents {
                    (
                        FleetModel { stage: StageModel::Launching(current + 1), ..self },
                        FleetAction::Launch((current + 1) as u32),
                    )
                } else {
                    (
                        FleetModel {
                            stage: StageModel::Traversing(
                                Seq::new(self.agents as nat, |i: int| false),
                            ),
                            ..self
                        },
                        FleetAction::ReleaseAll,
                    )
                }
            },
            (StageModel::Traversing(finished), FleetEvent::TraversalFinished(agent)) => {
                if agent >= finished.len() {
                    (self, FleetAction::Nothing)
                } else if all_set(finished.update(agent as int, true)) {
                    (FleetModel { stage: StageModel::Landing, ..self }, FleetAction::LandAll)
                } else {
                    (
                        FleetModel {
                            stage: StageModel::Traversing(finished.update(agent as int, true)),
                            ..self
                        },
                        FleetAction::Nothing,
                    )
                }
            },
            (StageModel::Landing, FleetEvent::DescentElapsed) => (
                FleetModel { stage: StageModel::Done, ..self },
                FleetAction::DisarmAll,
            ),
            _ => (self, FleetAction::Nothing),
        }
    }
}

/// The stage of a coordinator, as it is held.
enum Stage {
    Idle,
    Launching(u32),
    Traversing(Vec<bool>),
    Landing,
    Done,
}

/// The coordinator of one mission.
pub struct Coordinator {
    agents: u32,
    stage: Stage,
}

impl View for Coordinator {
    type V = FleetModel;

    closed spec fn view(&self) -> FleetModel {
        FleetModel {
            agents: self.agents as int,
            stage: match self.stage {
                Stage::Idle => StageModel::Idle,
                Stage::Launching(current) => StageModel::Launching(current as int),
                Stage::Traversing(finished) => StageModel::Traversing(finished@),
                Stage::Landing => StageModel::Landing,
                Stage::Done => StageModel::Done,
            },
        }
    }
}

/// Whether every flag is set.
fn every(flags: &Vec<bool>) -> (r: bool)
    ensures
        r == all_set(flags@),
{
    let mut i: usize = 0;
    while i < flags.len()
        invariant
            i <= flags@.len(),
            forall|j: int| 0 <= j < i ==> flags@[j],
        decreases flags@.len() - i,
    {
        if !flags[i] {
            return false;
        }
        i = i + 1;
    }
    true
}

/// `count` flags, none of them set.
fn unset(count: u32) -> (flags: Vec<bool>)
    ensures
        flags@ == Seq::new(count as nat, |i: int| false),
{
    let mut flags: Vec<bool> = Vec::new();
    let mut i: u32 = 0;
    while i < count
        invariant
            i <= count,
            flags@.len() == i,
            forall|j: int| 0 <= j < i ==> !flags@[j],
        decreases count - i,
    {
        flags.push(false);
        i = i + 1;
    }
    assert(flags@ =~= Seq::new(count as nat, |i: int| false));
    flags
}

impl Coordinator {
    #[verifier::type_invariant]
    spec fn inv(self) -> bool {
        self@.wf()
    }

    /// A coordinator for a fleet of `agents`, before the mission begins. A
    /// fleet without agents is refused.
    pub fn new(agents: u32) -> (r: Result<Coordinator, MissionError>)
        ensures
            match r {
                Ok(coordinator) => agents >= 1 && coordinator@ == (FleetModel {
                    agents: agents as int,
                    stage: StageModel::Idle,
                }),
                Err(e) => e == MissionError::InvalidConfiguration && agents == 0,
            },
    {
        if agents == 0 {
            return Err(MissionError::InvalidConfiguration);
        }
        Ok(Coordinator { agents, stage: Stage::Idle })
    }

    /// The number of agents.
    pub fn agents(&self) -> (r: u32)
        ensures
            r == self@.agents,
            self@.wf(),
    {
        proof {
            use_type_invariant(self);
        }
        self.agents
    }

    /// Whether the mission is over.
    pub fn is_done(&self) -> (r: bool)
        ensures
            r == (self@.stage is Done),
    {
        match self.stage {
            Stage::Done => true,
            _ => false,
        }
    }

    /// Takes an event and says what is to be done about it.
    pub fn handle(&mut self, event: FleetEvent) -> (action: FleetAction)
        ensures
            old(self)@.wf(),
            final(self)@.wf(),
            final(self)@ == old(self)@.step(event).0,
            action == old(self)@.step(event).1,
    {
        proof {
            use_type_invariant(&*self);
        }
        let agents: u32 = self.agents;
        let mut next: Option<Stage> = None;
        let mut action: FleetAction = FleetAction::Nothing;
        match &self.stage {
            Stage::Idle => {
                if let FleetEvent::Start = event {
                    next = Some(Stage::Launching(0));
                    action = FleetAction::Launch(0);
                }
            },
            Stage::Launching(current) => {
                if let FleetEvent::HoldReached(agent) = event {
                    if agent == *current {
                        if *current + 1 < agents {
                            next = Some(Stage::Launching(*current + 1));
                            action = FleetAction::Launch(*current + 1);
                        } else {
                            let flags = unset(agents);
                            assert(!flags@[0]);
                            next = Some(Stage::Traversing(flags));
                            action = FleetAction::ReleaseAll;
                        }
                    }
                }
            },
            Stage::Traversing(finished) => {
                if let FleetEvent::TraversalFinished(agent) = event {
                    if (agent as usize) < finished.len() {
                        let mut flags = finished.clone();
                        flags.set(agent as usize, true);
                        assert(flags@ =~= finished@.update(agent as int, true));
                        if every(&flags) {
                            next = Some(Stage::Landing);
                            action = FleetAction::LandAll;
                        } else {
                            next = Some(Stage::Traversing(flags));
                        }
                    }
                }
            },
            Stage::Landing => {
                if let FleetEvent::DescentElapsed = event {
                    next = Some(Stage::Done);
                    action = FleetAction::DisarmAll;
                }
            },
            Stage::Done => {},
        }
        if let Some(stage) = next {
            self.stage = stage;
        }
        action
    }
}

/// Launches are staggered: an agent is launched only at the start of the
/// mission, if it is the first, or when the agent before it has reached
/// its first point.
pub proof fn lemma_launch_is_staggered(fleet: FleetModel, event: FleetEvent, agent: u32)
    requires
        fleet.wf(),
        fleet.step(event).1 == FleetAction::Launch(agent),
    ensures
        (agent == 0 && fleet.stage is Idle && event == FleetEvent::Start) || (agent >= 1
            && fleet.stage == StageModel::Launching(agent - 1) && event == FleetEvent::HoldReached(
            (agent - 1) as u32,
        )),
{
}

/// The agents are released only when the last of them has reached its first
/// point, all the others holding at theirs.
pub proof fn lemma_release_after_all_hold(fleet: FleetModel, event: FleetEvent)
    requires
        fleet.wf(),
        fleet.step(event).1 == FleetAction::ReleaseAll,
    ensures
        fleet.stage == StageModel::Launching(fleet.agents - 1),
        event == FleetEvent::HoldReached((fleet.agents - 1) as u32),
        fleet.step(event).0.stage is Traversing,
{
}

/// The landing waits for all: it is commanded only on the event with which
/// the last agent finishes its mission.
pub proof fn lemma_land_after_all_finished(fleet: FleetModel, event: FleetEvent)
    requires
        fleet.wf(),
        fleet.step(event).1 == FleetAction::LandAll,
    ensures
        fleet.stage is Traversing,
        event is TraversalFinished,
        forall|i: int|
            0 <= i < fleet.agents && i != event->TraversalFinished_0 ==> fleet.stage->Traversing_0[i],
        fleet.step(event).0.stage is Landing,
{
    let finished = fleet.stage->Traversing_0;
    let agent = event->TraversalFinished_0;
    assert forall|i: int| 0 <= i < fleet.agents && i != agent implies finished[i] by {
        assert(finished.update(agent as int, true)[i]);
    }
}

/// The agents are disarmed only after the landing was commanded and the
/// wait for the descent has run out.
pub proof fn lemma_disarm_after_descent(fleet: FleetModel, event: FleetEvent)
    requires
        fleet.wf(),
        fleet.step(event).1 == FleetAction::DisarmAll,
    ensures
        fleet.stage is Landing,
        event == FleetEvent::DescentElapsed,
        fleet.step(event).0.stage is Done,
{
}

/// The invariant of the coordinator holds after every event.
pub proof fn lemma_step_keeps_wf(fleet: FleetModel, event: FleetEvent)
    requires
        fleet.wf(),
    ensures
        fleet.step(event).0.wf(),
        fleet.step(event).0.agents == fleet.agents,
{
    if fleet.stage is Launching && event is HoldReached {
        let flags = Seq::new(fleet.agents as nat, |i: int| false);
        assert(!flags[0]);
    }
}

} // verus!
