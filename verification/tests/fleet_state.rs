use sar_backend::comms::{CommStats, CommsManager, CommsMetrics};
use sar_backend::drone::{DroneManager, DroneState};

#[test]
fn fresh_metrics_are_good() {
    let m = CommsMetrics::new_comms_metrics(3);
    assert_eq!(m.get_latency_ms(), 0);
    assert_eq!(m.get_packet_loss(), 0);
    assert!(m.get_is_alive());
    assert_eq!(m.get_comms_stats(), CommStats::Good);
}

#[test]
fn link_status_by_thresholds() {
    let mut comms = CommsManager::new_comms_manager();
    comms.add_drone(1);
    assert_eq!(comms.get_status(1), Some(CommStats::Good));
    comms.update_metrics(1, 500_000, 20_000, true);
    assert_eq!(comms.get_status(1), Some(CommStats::Good));
    comms.update_latency_ms(1, 500_001);
    assert_eq!(comms.get_status(1), Some(CommStats::Degraded));
    comms.update_latency_ms(1, 10);
    assert_eq!(comms.get_status(1), Some(CommStats::Good));
    comms.update_packet_loss(1, 20_001);
    assert_eq!(comms.get_status(1), Some(CommStats::Degraded));
    comms.update_is_alive(1, false);
    assert_eq!(comms.get_status(1), Some(CommStats::Lost));
    comms.update_metrics(1, -4, -4, true);
    assert_eq!(comms.get_status(1), Some(CommStats::Good));
    assert_eq!(comms.get_metrics(1).unwrap().get_latency_ms(), -4);
}

#[test]
fn unknown_agent_has_no_link() {
    let mut comms = CommsManager::new_comms_manager();
    assert!(comms.get_metrics(9).is_none());
    assert_eq!(comms.get_status(9), None);
    comms.update_metrics(9, 1, 1, false);
    comms.update_latency_ms(9, 1);
    comms.update_packet_loss(9, 1);
    comms.update_is_alive(9, false);
    assert!(comms.get_metrics(9).is_none());
    assert!(comms.list_drones().is_empty());
}

#[test]
fn single_updates_keep_the_rest() {
    let mut comms = CommsManager::new_comms_manager();
    comms.add_drone(4);
    comms.update_metrics(4, 100, 200, true);
    comms.update_packet_loss(4, 300);
    let m = comms.get_metrics(4).unwrap();
    assert_eq!((m.get_latency_ms(), m.get_packet_loss(), m.get_is_alive()), (100, 300, true));
    comms.update_is_alive(4, false);
    let m = comms.get_metrics(4).unwrap();
    assert_eq!((m.get_latency_ms(), m.get_packet_loss(), m.get_is_alive()), (100, 300, false));
}

#[test]
fn comms_agents_are_listed_once() {
    let mut comms = CommsManager::new_comms_manager();
    for id in [5, 1, 9, 5, 1] {
        comms.add_drone(id);
    }
    comms.remove_drone(9);
    comms.remove_drone(77);
    let mut ids = comms.list_drones();
    ids.sort();
    assert_eq!(ids, vec![1, 5]);
}

#[test]
fn adding_again_resets_metrics() {
    let mut comms = CommsManager::new_comms_manager();
    comms.add_drone(2);
    comms.update_metrics(2, 900_000, 0, true);
    comms.add_drone(2);
    assert_eq!(comms.get_status(2), Some(CommStats::Good));
}

#[test]
fn fresh_drone_state() {
    let s = DroneState::new_drone(12);
    assert_eq!(s.get_drone_id(), 12);
    assert_eq!((s.get_latitude(), s.get_longitude(), s.get_altitude()), (0, 0, 0));
    assert_eq!(s.get_battery(), 100_000);
    assert!(!s.is_connected());
}

#[test]
fn position_is_clamped_to_the_globe() {
    let mut s = DroneState::new_drone(1);
    s.update_position(374_123_080, -1_219_988_810, 5_000);
    assert_eq!(
        (s.get_latitude(), s.get_longitude(), s.get_altitude()),
        (374_123_080, -1_219_988_810, 5_000)
    );
    s.update_position(900_000_001, 1_800_000_001, -1);
    assert_eq!(
        (s.get_latitude(), s.get_longitude(), s.get_altitude()),
        (900_000_000, 1_800_000_000, 0)
    );
    s.update_position(i64::MIN, i64::MIN, i64::MAX);
    assert_eq!(
        (s.get_latitude(), s.get_longitude(), s.get_altitude()),
        (-900_000_000, -1_800_000_000, i64::MAX)
    );
}

#[test]
fn battery_is_clamped() {
    let mut s = DroneState::new_drone(1);
    s.upadate_battery(55_500);
    assert_eq!(s.get_battery(), 55_500);
    s.upadate_battery(100_001);
    assert_eq!(s.get_battery(), 100_000);
    s.upadate_battery(-1);
    assert_eq!(s.get_battery(), 0);
}

#[test]
fn connection_can_be_switched() {
    let mut s = DroneState::new_drone(1);
    s.connect_drone();
    assert!(s.is_connected());
    s.disconnect_drone();
    assert!(!s.is_connected());
    assert_eq!(s.get_battery(), 100_000);
}

#[test]
fn drone_manager_holds_states() {
    let mut drones = DroneManager::new_manager();
    assert!(drones.get_state_immut(1).is_none());
    assert!(drones.get_state_mut(1).is_none());
    drones.add_drone(1);
    drones.add_drone(2);
    drones.get_state_mut(2).unwrap().update_position(10, 20, 30);
    drones.get_state_mut(2).unwrap().connect_drone();
    let two = drones.get_state_immut(2).unwrap();
    assert_eq!((two.get_latitude(), two.get_longitude(), two.get_altitude()), (10, 20, 30));
    assert!(two.is_connected());
    let one = drones.get_state_immut(1).unwrap();
    assert_eq!((one.get_latitude(), one.get_drone_id()), (0, 1));
    drones.remove_drone(1);
    assert!(drones.get_state_immut(1).is_none());
}

#[test]
fn drone_states_are_listed_once() {
    let mut drones = DroneManager::new_manager();
    for id in [3, 8, 3] {
        drones.add_drone(id);
    }
    drones.get_state_mut(8).unwrap().upadate_battery(7);
    let mut pairs: Vec<(u32, u32)> =
        drones.drone_iterator().iter().map(|(id, s)| (*id, s.get_battery())).collect();
    pairs.sort();
    assert_eq!(pairs, vec![(3, 100_000), (8, 7)]);
    assert!(DroneManager::new_manager().drone_iterator().is_empty());
}
