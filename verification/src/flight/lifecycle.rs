//! The lifecycle of one agent: from idle through arming, takeoff and cruise
//! to landing and disarming. A phase changes only when the command that
//! belongs to the change has been issued, or the wait that belongs to it has
//! run out; no phase is skipped.

use vstd::prelude::*;

verus! {

/// The phase that an agent is in.
#[derive(Debug, Clone, Copy, PartialEq, Eq, Structural)]
pub enum Phase {
    Idle,
    OffboardEnabled,
    Armed,
    TakingOff,
    Cruising,
    Landing,
    Disarmed,
}

/// What can move an agent from one phase to the next.
#[derive(Debug, Clone, Copy, PartialEq, Eq, Structural)]
pub enum Trigger {
    /// The command that enables offboard mode was issued.
    OffboardCommanded,
    /// The arm command was issued.
    ArmCommanded,
    /// The climb target was issued.
    ClimbCommanded,
    /// The wait for the climb ran out, or the climb was confirmed.
    ClimbComplete,
    /// The last waypoint was passed.
    WaypointsExhausted,
    /// The mission was aborted.
    Abort,
    /// The wait for the descent ran out and the disarm command was issued.
    DisarmCommanded,
    /// The agent was reset for another mission.
    Reset,
}

/// A command on the agent's command channel.
#[derive(Debug, Clone, Copy, PartialEq, Eq, Structural)]
pub enum Command {
    EnableOffboard,
    Arm,
    Climb,
    Land,
    Disarm,
}

/// What is made of a command that the channel failed to take.
#[derive(Debug, Clone, Copy, PartialEq, Eq, Structural)]
pub enum ChannelPolicy {
    /// The failure is reported, and the agent goes on as if the command had
    /// been taken: the next command of a fast control loop makes up for it.
    Forgiving,
    /// The failure is reported, and the agent stays in its phase.
    Strict,
}

/// What became of a trigger.
#[derive(Debug, Clone, Copy, PartialEq, Eq, Structural)]
pub enum Step {
    /// The agent is in this phase now.
    Moved(Phase),
    /// The channel failed, and the agent is in this phase now all the same.
    MovedDespiteFailure(Phase),
    /// The channel failed, and the agent stays where it was.
    Held,
    /// The trigger does not belong to the agent's phase.
    Rejected,
}

impl Phase {
    /// The place of a phase in the order of a mission.
    pub open spec fn rank(self) -> int {
        match self {
            Phase::Idle => 0,
            Phase::OffboardEnabled => 1,
            Phase::Armed => 2,
            Phase::TakingOff => 3,
            Phase::Cruising => 4,
            Phase::Landing => 5,
            Phase::Disarmed => 6,
        }
    }

    /// Whether a mission can be aborted in this phase: from arming until the
    /// landing begins.
    pub open spec fn abortable(self) -> bool {
        self == Phase::Armed || self == Phase::TakingOff || self == Phase::Cruising
    }

    /// The phase that `trigger` leads to from this one, if it leads
    /// anywhere. The command for offboard mode may be repeated while the
    /// agent waits to be armed.
    pub open spec fn next(self, trigger: Trigger) -> Option<Phase> {
        match (self, trigger) {
            (Phase::Idle, Trigger::OffboardCommanded) => Some(Phase::OffboardEnabled),
            (Phase::OffboardEnabled, Trigger::OffboardCommanded) => Some(Phase::OffboardEnabled),
            (Phase::OffboardEnabled, Trigger::ArmCommanded) => Some(Phase::Armed),
            (Phase::Armed, Trigger::ClimbCommanded) => Some(Phase::TakingOff),
            (Phase::TakingOff, Trigger::ClimbComplete) => Some(Phase::Cruising),
            (Phase::Cruising, Trigger::WaypointsExhausted) => Some(Phase::Landing),
            (Phase::Armed, Trigger::Abort) => Some(Phase::Landing),
            (Phase::TakingOff, Trigger::Abort) => Some(Phase::Landing),
            (Phase::Cruising, Trigger::Abort) => Some(Phase::Landing),
            (Phase::Landing, Trigger::DisarmCommanded) => Some(Phase::Disarmed),
            (Phase::Disarmed, Trigger::Reset) => Some(Phase::Idle),
            _ => None,
        }
    }

    /// The phase that `trigger` leads to from this one; nothing where the
    /// trigger does not belong to this phase.
    pub fn advance(self, trigger: Trigger) -> (r: Option<Phase>)
        ensures
            r == self.next(trigger),
    {
        match (self, trigger) {
            (Phase::Idle, Trigger::OffboardCommanded) => Some(Phase::OffboardEnabled),
            (Phase::OffboardEnabled, Trigger::OffboardCommanded) => Some(Phase::OffboardEnabled),
            (Phase::OffboardEnabled, Trigger::ArmCommanded) => Some(Phase::Armed),
            (Phase::Armed, Trigger::ClimbCommanded) => Some(Phase::TakingOff),
            (Phase::TakingOff, Trigger::ClimbComplete) => Some(Phase::Cruising),
            (Phase::Cruising, Trigger::WaypointsExhausted) => Some(Phase::Landing),
            (Phase::Armed, Trigger::Abort) => Some(Phase::Landing),
            (Phase::TakingOff, Trigger::Abort) => Some(Phase::Landing),
            (Phase::Cruising, Trigger::Abort) => Some(Phase::Landing),
            (Phase::Landing, Trigger::DisarmCommanded) => Some(Phase::Disarmed),
            (Phase::Disarmed, Trigger::Reset) => Some(Phase::Idle),
            _ => None,
        }
    }

    /// What becomes of `trigger` in this phase, given whether the channel took
    /// the command that goes with it, under `policy`.
    pub open spec fn settled(self, trigger: Trigger, taken: bool, policy: ChannelPolicy) -> Step {
        match self.next(trigger) {
            None => Step::Rejected,
            Some(phase) => if taken {
                Step::Moved(phase)
            } else if policy == ChannelPolicy::Forgiving {
                Step::MovedDespiteFailure(phase)
            } else {
                Step::Held
            },
        }
    }

    /// What becomes of `trigger` in this phase, given whether the channel took
    /// the command that goes with it. A failure of the channel never goes
    /// unreported; whether the agent moves on regardless is the caller's
    /// policy.
    pub fn settle(self, trigger: Trigger, taken: bool, policy: ChannelPolicy) -> (r: Step)
        ensures
            r == self.settled(trigger, taken, policy),
    {
        match self.advance(trigger) {
            None => Step::Rejected,
            Some(phase) => {
                if taken {
                    Step::Moved(phase)
                } else {
                    match policy {
                        ChannelPolicy::Forgiving => Step::MovedDespiteFailure(phase),
                        ChannelPolicy::Strict => Step::Held,
                    }
                }
            },
        }
    }

    /// Whether the agent is in the air under this library's control.
    pub fn is_airborne(self) -> (r: bool)
        ensures
            r == (self == Phase::TakingOff || self == Phase::Cruising || self == Phase::Landing),
    {
        match self {
            Phase::TakingOff | Phase::Cruising | Phase::Landing => true,
            _ => false,
        }
    }
}

impl Trigger {
    /// The command that goes out on the channel with this trigger, if one
    /// does: the end of the waypoints and an abort both command a landing;
    /// the end of the climb and a reset command nothing.
    pub open spec fn command_model(self) -> Option<Command> {
        match self {
            Trigger::OffboardCommanded => Some(Command::EnableOffboard),
            Trigger::ArmCommanded => Some(Command::Arm),
            Trigger::ClimbCommanded => Some(Command::Climb),
            Trigger::ClimbComplete => None,
            Trigger::WaypointsExhausted => Some(Command::Land),
            Trigger::Abort => Some(Command::Land),
            Trigger::DisarmCommanded => Some(Command::Disarm),
            Trigger::Reset => None,
        }
    }

    /// The command that goes out on the channel with this trigger.
    pub fn command(self) -> (r: Option<Command>)
        ensures
            r == self.command_model(),
    {
        match self {
            Trigger::OffboardCommanded => Some(Command::EnableOffboard),
            Trigger::ArmCommanded => Some(Command::Arm),
            Trigger::ClimbCommanded => Some(Command::Climb),
            Trigger::ClimbComplete => None,
            Trigger::WaypointsExhausted => Some(Command::Land),
            Trigger::Abort => Some(Command::Land),
            Trigger::DisarmCommanded => Some(Command::Disarm),
            Trigger::Reset => None,
        }
    }
}

/// The phase after a sequence of triggers, where a trigger that does not
/// belong to the phase it meets leaves the phase as it is.
pub open spec fn run(phase: Phase, triggers: Seq<Trigger>) -> Phase
    decreases triggers.len(),
{
    if triggers.len() == 0 {
        phase
    } else {
        let before = run(phase, triggers.drop_last());
        match before.next(triggers.last()) {
            Some(after) => after,
            None => before,
        }
    }
}

/// No phase is skipped: a change leads to the next phase in order, but for
/// three cases: a repeated offboard command leaves the phase as it is, an
/// abort leads from any phase in which the agent is armed and not yet
/// landing straight to the landing, and a reset leads from the end back to
/// the start.
pub proof fn lemma_no_phase_skipped(phase: Phase, trigger: Trigger)
    requires
        phase.next(trigger) is Some,
    ensures
        trigger == Trigger::Abort ==> phase.abortable() && phase.next(trigger) == Some(
            Phase::Landing,
        ),
        trigger == Trigger::Reset ==> phase == Phase::Disarmed && phase.next(trigger) == Some(
            Phase::Idle,
        ),
        trigger == Trigger::OffboardCommanded && phase == Phase::OffboardEnabled ==> phase.next(
            trigger,
        ) == Some(phase),
        trigger != Trigger::Abort && trigger != Trigger::Reset && !(trigger
            == Trigger::OffboardCommanded && phase == Phase::OffboardEnabled) ==> (phase.next(
            trigger,
        )->0).rank() == phase.rank() + 1,
{
}

/// A mission runs one way: without a reset, no sequence of triggers leads
/// back to an earlier phase.
pub proof fn lemma_one_directional(phase: Phase, triggers: Seq<Trigger>)
    requires
        forall|i: int| 0 <= i < triggers.len() ==> triggers[i] != Trigger::Reset,
    ensures
        phase.rank() <= run(phase, triggers).rank(),
    decreases triggers.len(),
{
    if triggers.len() > 0 {
        lemma_one_directional(phase, triggers.drop_last());
    }
}

/// An abort is heard exactly from arming until the landing begins, and
/// always leads to the landing.
pub proof fn lemma_abort(phase: Phase)
    ensures
        phase.next(Trigger::Abort) == if phase.abortable() {
            Some(Phase::Landing)
        } else {
            None::<Phase>
        },
{
}

} // verus!
