use sar_backend::error::MissionError;
use sar_backend::mission::planner::lawnmower_slice_search;
use sar_backend::mission::Waypoint;

// A square of 0.02 degree at the equator is 2226.39 m wide.
const EXTENT: i64 = 2_226_390;

fn plan(n: u32) -> Vec<Vec<Waypoint>> {
    lawnmower_slice_search(0, 0, 200_000, 200_000, n, 100_000, 50_000, EXTENT).unwrap()
}

#[test]
fn decomposition_two_agents() {
    let missions = plan(2);
    assert_eq!(missions.len(), 2);
    assert!(!missions[0].is_empty());
    assert!(!missions[1].is_empty());
    let max0 = missions[0].iter().map(|w| w.get_longitude()).max().unwrap();
    let min1 = missions[1].iter().map(|w| w.get_longitude()).min().unwrap();
    assert!(max0 <= min1);
    for mission in &missions {
        for pair in mission.chunks(2) {
            assert_eq!(pair.len(), 2);
            assert_eq!(pair[0].get_longitude(), pair[1].get_longitude());
            assert_ne!(pair[0].get_latitude(), pair[1].get_latitude());
        }
        for w in mission {
            assert!(w.get_latitude() == 0 || w.get_latitude() == 200_000);
        }
    }
}

#[test]
fn decomposition_exact_waypoints() {
    let missions = plan(2);
    // One swath of 100 m spans floor(100000 * 200000 / 2226390) = 8983 units.
    assert_eq!(missions[0].len(), 24);
    assert_eq!(missions[1].len(), 24);
    for (i, mission) in missions.iter().enumerate() {
        for (j, w) in mission.iter().enumerate() {
            let low = j % 4 == 0 || j % 4 == 3;
            assert_eq!(w.get_latitude(), if low { 0 } else { 200_000 });
            assert_eq!(w.get_longitude(), (i as i32) * 100_000 + (j as i32 / 2) * 8983);
            assert_eq!(w.get_altitude(), 50_000);
            assert_eq!(w.get_hover_time(), 0);
        }
    }
}

#[test]
fn one_mission_per_agent_within_its_slice() {
    for n in 1..=7u32 {
        let missions = plan(n);
        assert_eq!(missions.len(), n as usize);
        for (i, mission) in missions.iter().enumerate() {
            let lo = (i as i64 * 200_000 / n as i64) as i32;
            let hi = ((i as i64 + 1) * 200_000 / n as i64) as i32;
            assert!(!mission.is_empty());
            for w in mission {
                assert!(lo <= w.get_longitude() && w.get_longitude() < hi);
            }
        }
    }
}

#[test]
fn sweep_lines_leave_no_gap_wider_than_a_swath() {
    let missions = plan(3);
    let mut lines: Vec<i32> = Vec::new();
    for mission in &missions {
        for w in mission {
            lines.push(w.get_longitude());
        }
    }
    lines.dedup();
    assert_eq!(lines[0], 0);
    for pair in lines.windows(2) {
        assert!(pair[0] < pair[1]);
        assert!(pair[1] - pair[0] <= 8983);
    }
    assert!(200_000 - lines[lines.len() - 1] <= 8983);
}

#[test]
fn no_agents_is_refused() {
    let r = lawnmower_slice_search(0, 0, 200_000, 200_000, 0, 100_000, 50_000, EXTENT);
    assert_eq!(r.err(), Some(MissionError::InvalidConfiguration));
}

#[test]
fn swath_that_is_not_positive_is_refused() {
    let r = lawnmower_slice_search(0, 0, 200_000, 200_000, 2, 0, 50_000, EXTENT);
    assert_eq!(r.err(), Some(MissionError::InvalidConfiguration));
    let r = lawnmower_slice_search(0, 0, 200_000, 200_000, 2, -5, 50_000, EXTENT);
    assert_eq!(r.err(), Some(MissionError::InvalidConfiguration));
}

#[test]
fn swath_too_narrow_to_advance_is_refused() {
    // 1 mm spans less than one unit of longitude here.
    let r = lawnmower_slice_search(0, 0, 200_000, 200_000, 2, 1, 50_000, EXTENT);
    assert_eq!(r.err(), Some(MissionError::InvalidConfiguration));
}

#[test]
fn bounds_the_wrong_way_round_are_refused() {
    let r = lawnmower_slice_search(200_000, 0, 0, 200_000, 2, 100_000, 50_000, EXTENT);
    assert_eq!(r.err(), Some(MissionError::InvalidConfiguration));
    let r = lawnmower_slice_search(0, 200_000, 200_000, 0, 2, 100_000, 50_000, EXTENT);
    assert_eq!(r.err(), Some(MissionError::InvalidConfiguration));
}

#[test]
fn extent_that_is_not_positive_is_refused() {
    let r = lawnmower_slice_search(0, 0, 200_000, 200_000, 2, 100_000, 50_000, 0);
    assert_eq!(r.err(), Some(MissionError::InvalidConfiguration));
}

#[test]
fn degenerate_rectangle_gives_empty_missions() {
    let flat = lawnmower_slice_search(0, 0, 0, 200_000, 3, 100_000, 50_000, EXTENT).unwrap();
    assert_eq!(flat.len(), 3);
    assert!(flat.iter().all(|m| m.is_empty()));
    let thin = lawnmower_slice_search(0, 5, 200_000, 5, 2, 100_000, 50_000, 0).unwrap();
    assert_eq!(thin.len(), 2);
    assert!(thin.iter().all(|m| m.is_empty()));
}

#[test]
fn slice_without_width_gives_an_empty_mission() {
    // One unit of longitude cannot be shared by two agents.
    let missions = lawnmower_slice_search(0, 0, 200_000, 1, 2, 100_000, 50_000, 11).unwrap();
    assert_eq!(missions.len(), 2);
    assert!(missions[0].is_empty());
    assert_eq!(missions[1].len(), 2);
    assert_eq!(missions[1][0].get_longitude(), 0);
}

#[test]
fn swath_wider_than_the_slice_gives_one_line() {
    let missions =
        lawnmower_slice_search(0, 0, 200_000, 200_000, 2, 10_000_000, 50_000, EXTENT).unwrap();
    for (i, mission) in missions.iter().enumerate() {
        assert_eq!(mission.len(), 2);
        assert_eq!(mission[0].get_longitude(), i as i32 * 100_000);
        assert_eq!(mission[0].get_latitude(), 0);
        assert_eq!(mission[1].get_latitude(), 200_000);
    }
}

#[test]
fn hover_time_can_be_changed() {
    let mut w = Waypoint::new_waypoint(1, 2, 3);
    assert_eq!(w.get_hover_time(), 0);
    w.update_hover_time(2500);
    assert_eq!(w.get_hover_time(), 2500);
    assert_eq!((w.get_latitude(), w.get_longitude(), w.get_altitude()), (1, 2, 3));
}
