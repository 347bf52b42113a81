use sar_backend::coverage::addressing::cell_of;
use sar_backend::coverage::{Cell, Grid, CONFIDENCE_FULL};

#[test]
fn fresh_grid_is_uncovered() {
    let grid = Grid::new_grid(5, 5);
    assert_eq!(grid.rows(), 5);
    assert_eq!(grid.cols(), 5);
    assert_eq!(grid.grid_portion_covered(), 0);
    assert_eq!(grid.visited_count(), 0);
    assert_eq!(grid.cell_count(), 25);
    for r in 0..5 {
        for c in 0..5 {
            let cell = grid.get_cell(r, c).unwrap();
            assert_eq!((cell.row(), cell.col()), (r, c));
            assert!(!cell.visited());
            assert_eq!(cell.confidence(), 0);
        }
    }
}

#[test]
fn lower_triangle_is_three_fifths() {
    let mut grid = Grid::new_grid(5, 5);
    for r in 0..5 {
        for c in 0..=r {
            grid.visit_gridcell(r, c);
        }
    }
    assert_eq!(grid.visited_count(), 15);
    assert_eq!(grid.grid_portion_covered(), 600_000);
    assert!(grid.get_cell(3, 1).unwrap().visited());
    assert_eq!(grid.get_cell(3, 1).unwrap().confidence(), CONFIDENCE_FULL);
    assert!(!grid.get_cell(1, 3).unwrap().visited());
}

#[test]
fn empty_grid_covers_nothing() {
    assert_eq!(Grid::new_grid(0, 0).grid_portion_covered(), 0);
    assert_eq!(Grid::new_grid(0, 4).grid_portion_covered(), 0);
    assert_eq!(Grid::new_grid(4, 0).grid_portion_covered(), 0);
    assert_eq!(Grid::new_grid(0, 4).cols(), 4);
    assert!(Grid::new_grid(4, 0).get_cell(0, 0).is_none());
}

#[test]
fn out_of_range_is_a_no_op() {
    let mut grid = Grid::new_grid(2, 3);
    grid.visit_gridcell(2, 0);
    grid.visit_gridcell(0, 3);
    grid.update_gridcell_confidence(7, 7, 1_000_000);
    assert_eq!(grid.visited_count(), 0);
    assert!(grid.get_cell(2, 0).is_none());
    assert!(grid.get_cell(0, 3).is_none());
    assert!(grid.get_cell_mut(2, 3).is_none());
}

#[test]
fn confidence_is_clamped() {
    let mut grid = Grid::new_grid(2, 2);
    grid.update_gridcell_confidence(0, 0, -5);
    assert_eq!(grid.get_cell(0, 0).unwrap().confidence(), 0);
    assert!(!grid.get_cell(0, 0).unwrap().visited());
    grid.update_gridcell_confidence(0, 0, 400_000);
    assert_eq!(grid.get_cell(0, 0).unwrap().confidence(), 400_000);
    assert!(!grid.get_cell(0, 0).unwrap().visited());
    grid.update_gridcell_confidence(0, 0, i64::MAX);
    assert_eq!(grid.get_cell(0, 0).unwrap().confidence(), 1_000_000);
    assert!(grid.get_cell(0, 0).unwrap().visited());
    grid.update_gridcell_confidence(0, 1, i64::MIN);
    assert_eq!(grid.get_cell(0, 1).unwrap().confidence(), 0);
}

#[test]
fn visited_is_never_taken_back() {
    let mut grid = Grid::new_grid(3, 3);
    grid.visit_gridcell(1, 1);
    for value in [0, -1, 999_999, 500_000, i64::MIN] {
        grid.update_gridcell_confidence(1, 1, value);
        assert!(grid.get_cell(1, 1).unwrap().visited());
    }
    assert_eq!(grid.get_cell(1, 1).unwrap().confidence(), 0);
}

#[test]
fn coverage_never_falls() {
    let mut grid = Grid::new_grid(4, 4);
    let mut last = grid.grid_portion_covered();
    let steps: [(u32, u32, Option<i64>); 8] = [
        (0, 0, None),
        (0, 0, Some(0)),
        (1, 2, Some(1_000_000)),
        (1, 2, Some(-3)),
        (9, 9, None),
        (3, 3, Some(999_999)),
        (3, 3, None),
        (0, 0, None),
    ];
    let expected = [62_500, 62_500, 125_000, 125_000, 125_000, 125_000, 187_500, 187_500];
    for (step, want) in steps.iter().zip(expected.iter()) {
        match step.2 {
            None => grid.visit_gridcell(step.0, step.1),
            Some(v) => grid.update_gridcell_confidence(step.0, step.1, v),
        }
        let now = grid.grid_portion_covered();
        assert!(now >= last);
        assert_eq!(now, *want);
        last = now;
    }
}

#[test]
fn portion_is_rounded_down() {
    let mut grid = Grid::new_grid(1, 3);
    grid.visit_gridcell(0, 0);
    assert_eq!(grid.grid_portion_covered(), 333_333);
    grid.visit_gridcell(0, 1);
    assert_eq!(grid.grid_portion_covered(), 666_666);
    grid.visit_gridcell(0, 2);
    assert_eq!(grid.grid_portion_covered(), 1_000_000);
}

#[test]
fn cell_on_its_own() {
    let mut cell = Cell::new_cell(4, 7);
    assert_eq!((cell.row(), cell.col(), cell.visited(), cell.confidence()), (4, 7, false, 0));
    cell.update_confidence(250_000);
    assert_eq!((cell.visited(), cell.confidence()), (false, 250_000));
    cell.update_confidence(1_000_000);
    assert_eq!((cell.visited(), cell.confidence()), (true, 1_000_000));
    cell.update_confidence(2);
    assert_eq!((cell.visited(), cell.confidence()), (true, 2));
    let mut other = Cell::new_cell(0, 0);
    other.mark_visited();
    assert_eq!((other.visited(), other.confidence()), (true, 1_000_000));
}

#[test]
fn cell_changed_in_place() {
    let mut grid = Grid::new_grid(2, 2);
    grid.get_cell_mut(1, 0).unwrap().mark_visited();
    grid.get_cell_mut(0, 1).unwrap().update_confidence(123);
    assert!(grid.get_cell(1, 0).unwrap().visited());
    assert_eq!(grid.get_cell(0, 1).unwrap().confidence(), 123);
    assert_eq!(grid.visited_count(), 1);
    assert_eq!(grid.grid_portion_covered(), 250_000);
}

#[test]
fn places_fall_into_cells() {
    // A grid of 3 by 24 over the square from (0, 0) to (0.02, 0.02) degree.
    assert_eq!(cell_of(0, 0, 0, 0, 200_000, 200_000, 3, 24), Some((0, 0)));
    assert_eq!(cell_of(200_000, 0, 0, 0, 200_000, 200_000, 3, 24), Some((2, 0)));
    assert_eq!(cell_of(100_000, 8983, 0, 0, 200_000, 200_000, 3, 24), Some((1, 1)));
    assert_eq!(cell_of(99_999, 199_999, 0, 0, 200_000, 200_000, 3, 24), Some((0, 23)));
    assert_eq!(cell_of(0, 200_000, 0, 0, 200_000, 200_000, 3, 24), Some((0, 24)));
    assert_eq!(cell_of(5, 5, 0, 0, 200_000, 200_000, 1, 1), Some((0, 0)));
}

#[test]
fn places_outside_have_no_cell() {
    assert_eq!(cell_of(-1, 0, 0, 0, 200_000, 200_000, 3, 24), None);
    assert_eq!(cell_of(0, 200_001, 0, 0, 200_000, 200_000, 3, 24), None);
    assert_eq!(cell_of(0, 0, 0, 0, 0, 200_000, 3, 24), None);
    assert_eq!(cell_of(0, 0, 0, 0, 200_000, 0, 3, 24), None);
    assert_eq!(cell_of(0, 0, 0, 0, 200_000, 200_000, 0, 24), None);
    assert_eq!(cell_of(0, 0, 0, 0, 200_000, 200_000, 3, 0), None);
}
