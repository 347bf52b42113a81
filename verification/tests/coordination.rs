use sar_backend::coordination::coordinator::{Coordinator, FleetAction, FleetEvent};
use sar_backend::coordination::rendezvous::{has_reached, poll_rendezvous, WaitOutcome};
use sar_backend::error::MissionError;
use sar_backend::flight::projection::LocalPoint;

#[test]
fn arrival_by_threshold() {
    let target = LocalPoint { north: 3_000, east: 4_000 };
    let origin = LocalPoint { north: 0, east: 0 };
    assert!(has_reached(origin, target, 5_000));
    assert!(!has_reached(origin, target, 4_999));
    assert!(has_reached(target, target, 0));
    let far = LocalPoint { north: i32::MIN, east: i32::MAX };
    let other = LocalPoint { north: i32::MAX, east: i32::MIN };
    assert!(!has_reached(far, other, u32::MAX));
}

#[test]
fn the_wait_has_three_outcomes() {
    let target = LocalPoint { north: 0, east: 1_000 };
    let near = Some(LocalPoint { north: 0, east: 900 });
    let away = Some(LocalPoint { north: 0, east: 0 });
    assert_eq!(poll_rendezvous(near, target, 200, 0, 1_000), WaitOutcome::Reached);
    assert_eq!(poll_rendezvous(near, target, 200, 5_000, 1_000), WaitOutcome::Reached);
    assert_eq!(poll_rendezvous(away, target, 200, 999, 1_000), WaitOutcome::Waiting);
    assert_eq!(poll_rendezvous(away, target, 200, 1_000, 1_000), WaitOutcome::TimedOut);
    assert_eq!(poll_rendezvous(None, target, 200, 0, 1_000), WaitOutcome::Waiting);
    assert_eq!(poll_rendezvous(None, target, 200, 1_001, 1_000), WaitOutcome::TimedOut);
    assert_eq!(poll_rendezvous(None, target, 200, 0, 0), WaitOutcome::TimedOut);
}

#[test]
fn a_fleet_without_agents_is_refused() {
    assert_eq!(Coordinator::new(0).err(), Some(MissionError::InvalidConfiguration));
}

#[test]
fn two_agents_fly_a_mission() {
    let mut fleet = Coordinator::new(2).unwrap();
    assert_eq!(fleet.agents(), 2);
    assert_eq!(fleet.handle(FleetEvent::Start), FleetAction::Launch(0));
    assert_eq!(fleet.handle(FleetEvent::HoldReached(0)), FleetAction::Launch(1));
    assert_eq!(fleet.handle(FleetEvent::HoldReached(1)), FleetAction::ReleaseAll);
    assert_eq!(fleet.handle(FleetEvent::TraversalFinished(1)), FleetAction::Nothing);
    assert_eq!(fleet.handle(FleetEvent::TraversalFinished(0)), FleetAction::LandAll);
    assert!(!fleet.is_done());
    assert_eq!(fleet.handle(FleetEvent::DescentElapsed), FleetAction::DisarmAll);
    assert!(fleet.is_done());
    assert_eq!(fleet.handle(FleetEvent::Start), FleetAction::Nothing);
}

#[test]
fn events_out_of_turn_change_nothing() {
    let mut fleet = Coordinator::new(3).unwrap();
    assert_eq!(fleet.handle(FleetEvent::HoldReached(0)), FleetAction::Nothing);
    assert_eq!(fleet.handle(FleetEvent::DescentElapsed), FleetAction::Nothing);
    assert_eq!(fleet.handle(FleetEvent::Start), FleetAction::Launch(0));
    assert_eq!(fleet.handle(FleetEvent::Start), FleetAction::Nothing);
    // The second agent is not launched before the first holds.
    assert_eq!(fleet.handle(FleetEvent::HoldReached(1)), FleetAction::Nothing);
    assert_eq!(fleet.handle(FleetEvent::TraversalFinished(0)), FleetAction::Nothing);
    assert_eq!(fleet.handle(FleetEvent::HoldReached(0)), FleetAction::Launch(1));
    assert_eq!(fleet.handle(FleetEvent::HoldReached(0)), FleetAction::Nothing);
    assert_eq!(fleet.handle(FleetEvent::HoldReached(1)), FleetAction::Launch(2));
    assert_eq!(fleet.handle(FleetEvent::HoldReached(2)), FleetAction::ReleaseAll);
    // The landing waits for all, however often one agent reports.
    assert_eq!(fleet.handle(FleetEvent::TraversalFinished(2)), FleetAction::Nothing);
    assert_eq!(fleet.handle(FleetEvent::TraversalFinished(2)), FleetAction::Nothing);
    assert_eq!(fleet.handle(FleetEvent::TraversalFinished(7)), FleetAction::Nothing);
    assert_eq!(fleet.handle(FleetEvent::DescentElapsed), FleetAction::Nothing);
    assert_eq!(fleet.handle(FleetEvent::TraversalFinished(0)), FleetAction::Nothing);
    assert_eq!(fleet.handle(FleetEvent::TraversalFinished(1)), FleetAction::LandAll);
    assert_eq!(fleet.handle(FleetEvent::TraversalFinished(1)), FleetAction::Nothing);
    assert_eq!(fleet.handle(FleetEvent::DescentElapsed), FleetAction::DisarmAll);
    assert!(fleet.is_done());
}

#[test]
fn a_single_agent_is_released_at_once() {
    let mut fleet = Coordinator::new(1).unwrap();
    assert_eq!(fleet.handle(FleetEvent::Start), FleetAction::Launch(0));
    assert_eq!(fleet.handle(FleetEvent::HoldReached(0)), FleetAction::ReleaseAll);
    assert_eq!(fleet.handle(FleetEvent::TraversalFinished(0)), FleetAction::LandAll);
    assert_eq!(fleet.handle(FleetEvent::DescentElapsed), FleetAction::DisarmAll);
}
