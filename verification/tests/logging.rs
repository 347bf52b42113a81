use sar_backend::logging::text::decimal;
use sar_backend::logging::{DataLoger, Event, EventType};
use sar_backend::mission::Waypoint;
use sar_backend::system::SystemManager;

#[test]
fn event_kinds_compare_by_kind_and_text() {
    assert_eq!(EventType::TakeOff, EventType::TakeOff);
    assert_ne!(EventType::TakeOff, EventType::Landing);
    assert_eq!(EventType::Detection("x".to_string()), EventType::Detection("x".to_string()));
    assert_ne!(EventType::Detection("x".to_string()), EventType::Detection("y".to_string()));
    assert_ne!(EventType::Detection("x".to_string()), EventType::Other("x".to_string()));
    assert_eq!(EventType::Other(String::new()), EventType::Other(String::new()));
    assert_ne!(EventType::CommsLoss, EventType::WaypointReached);
}

#[test]
fn event_with_a_given_stamp() {
    let e = Event::at(1_444, 7, EventType::CommsLoss, Some(1), None);
    assert_eq!(e.timestamp, 1_444);
    assert_eq!(e.drone_id, 7);
    assert_eq!(e.event_type, EventType::CommsLoss);
    assert_eq!((e.latitude, e.longitude), (Some(1), None));
}

#[test]
fn new_event_is_stamped_with_the_time() {
    let before = chrono::Utc::now().timestamp_millis();
    let e = Event::new_event(2, EventType::TakeOff, Some(5), Some(6));
    let after = chrono::Utc::now().timestamp_millis();
    assert!(before <= e.timestamp && e.timestamp <= after);
    assert!(e.timestamp > 1_600_000_000_000);
    assert_eq!(e.drone_id, 2);
    assert_eq!(e.event_type, EventType::TakeOff);
    assert_eq!((e.latitude, e.longitude), (Some(5), Some(6)));
}

#[test]
fn log_is_filtered_in_order() {
    let mut log = DataLoger::new_dataloger();
    log.add_event(Event::at(1, 1, EventType::TakeOff, None, None));
    log.add_event(Event::at(2, 2, EventType::TakeOff, None, None));
    log.add_event(Event::at(3, 1, EventType::Detection("person".to_string()), None, None));
    log.add_event(Event::at(4, 1, EventType::Landing, None, None));
    log.add_event(Event::at(5, 2, EventType::Detection("person".to_string()), None, None));
    log.add_event(Event::at(6, 2, EventType::Detection("car".to_string()), None, None));
    assert_eq!(log.logs.len(), 6);
    let of_one: Vec<i64> = log.get_drone_events(1).iter().map(|e| e.timestamp).collect();
    assert_eq!(of_one, vec![1, 3, 4]);
    let of_two: Vec<i64> = log.get_drone_events(2).iter().map(|e| e.timestamp).collect();
    assert_eq!(of_two, vec![2, 5, 6]);
    assert!(log.get_drone_events(3).is_empty());
    let takeoffs: Vec<i64> =
        log.get_event_by_type(EventType::TakeOff).iter().map(|e| e.timestamp).collect();
    assert_eq!(takeoffs, vec![1, 2]);
    let persons: Vec<i64> = log
        .get_event_by_type(EventType::Detection("person".to_string()))
        .iter()
        .map(|e| e.timestamp)
        .collect();
    assert_eq!(persons, vec![3, 5]);
    assert!(log.get_event_by_type(EventType::CommsLoss).is_empty());
}

#[test]
fn numbers_in_decimal() {
    assert_eq!(decimal(0), "0");
    assert_eq!(decimal(7), "7");
    assert_eq!(decimal(10), "10");
    assert_eq!(decimal(24), "24");
    assert_eq!(decimal(1_234_567_890), "1234567890");
    assert_eq!(decimal(u64::MAX), "18446744073709551615");
}

#[test]
fn system_registers_agents() {
    let mut system = SystemManager::new_system_manager();
    assert!(system.list_drones().is_empty());
    assert!(system.grid.is_none());
    system.add_drone(4);
    system.add_drone(2);
    let mut ids = system.list_drones();
    ids.sort();
    assert_eq!(ids, vec![2, 4]);
    assert!(system.comms.get_metrics(4).is_some());
    assert!(system.drone.get_state_immut(2).is_some());
    let logs = system.get_logs(4);
    assert_eq!(logs.len(), 1);
    assert_eq!(logs[0].event_type, EventType::Other("Drone Added".to_string()));
    assert_eq!((logs[0].latitude, logs[0].longitude), (None, None));
    assert_eq!(system.logger.logs.len(), 2);
}

#[test]
fn system_logs_missions() {
    let mut system = SystemManager::new_system_manager();
    system.add_drone(1);
    system.update_drone_position(1, 374_123_080, -1_219_988_810, 5_000);
    let waypoints: Vec<Waypoint> = (0..12).map(|i| Waypoint::new_waypoint(i, i, 50_000)).collect();
    system.add_mission(1, waypoints);
    system.add_mission(5, Vec::new());
    let logs = system.get_logs(1);
    assert_eq!(logs.len(), 3);
    assert_eq!(
        logs[2].event_type,
        EventType::Other("Mission assigned with waypoints: 12".to_string())
    );
    assert_eq!((logs[2].latitude, logs[2].longitude), (Some(374_123_080), Some(-1_219_988_810)));
    assert!(system.get_logs(5).is_empty());
}

#[test]
fn system_records_positions() {
    let mut system = SystemManager::new_system_manager();
    system.add_drone(1);
    system.update_drone_position(1, 950_000_000, 10, -7);
    system.update_drone_position(3, 1, 1, 1);
    let state = system.drone.get_state_immut(1).unwrap();
    assert_eq!(
        (state.get_latitude(), state.get_longitude(), state.get_altitude()),
        (900_000_000, 10, 0)
    );
    let logs = system.get_logs(1);
    assert_eq!(logs.len(), 2);
    assert_eq!(logs[1].event_type, EventType::WaypointReached);
    assert_eq!((logs[1].latitude, logs[1].longitude), (Some(950_000_000), Some(10)));
    assert_eq!(system.logger.logs.len(), 2);
}

#[test]
fn system_updates_links_and_grid() {
    let mut system = SystemManager::new_system_manager();
    system.add_drone(1);
    system.update_comms(1, 600_000, 0, true);
    system.update_comms(2, 600_000, 0, true);
    assert_eq!(system.comms.get_status(1), Some(sar_backend::comms::CommStats::Degraded));
    assert_eq!(system.comms.get_status(2), None);
    system.init_grid(3, 24);
    let grid = system.grid.as_ref().unwrap();
    assert_eq!((grid.rows(), grid.cols()), (3, 24));
    assert_eq!(grid.grid_portion_covered(), 0);
}
