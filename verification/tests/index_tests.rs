use heatmap_tiles::index::{Coordinator, SpatialIndex};

fn scan(points: &[(i64, i64)], a: (i64, i64), b: (i64, i64)) -> Vec<(i64, i64)> {
    let (x0, x1) = (a.0.min(b.0), a.0.max(b.0));
    let (y0, y1) = (a.1.min(b.1), a.1.max(b.1));
    let mut found: Vec<(i64, i64)> = points
        .iter()
        .copied()
        .filter(|p| x0 <= p.0 && p.0 <= x1 && y0 <= p.1 && p.1 <= y1)
        .collect();
    found.sort();
    found
}

fn sorted(mut points: Vec<(i64, i64)>) -> Vec<(i64, i64)> {
    points.sort();
    points
}

fn scattered(n: usize, spread: i64) -> Vec<(i64, i64)> {
    let mut state: u64 = 0x2545_f491_4f6c_dd1d;
    let mut points = Vec::new();
    for _ in 0..n {
        state = state.wrapping_mul(6364136223846793005).wrapping_add(1442695040888963407);
        let x = ((state >> 33) as i64) % spread - spread / 2;
        state = state.wrapping_mul(6364136223846793005).wrapping_add(1442695040888963407);
        let y = ((state >> 33) as i64) % spread - spread / 2;
        points.push((x, y));
    }
    points
}

#[test]
fn query_returns_the_points_in_the_closed_box() {
    let points = vec![(0, 0), (0, 10), (10, 10), (5, 5), (11, 5), (-1, 0)];
    let index = SpatialIndex::build(points.clone());
    assert_eq!(
        sorted(index.query_range((0, 0), (10, 10))),
        vec![(0, 0), (0, 10), (5, 5), (10, 10)]
    );
    assert_eq!(sorted(index.query_range((0, 0), (5, 10))), vec![(0, 0), (0, 10), (5, 5)]);
    assert_eq!(sorted(index.query_range((11, 5), (11, 5))), vec![(11, 5)]);
    assert_eq!(index.query_range((20, 20), (30, 30)), Vec::new());
}

#[test]
fn query_agrees_with_a_linear_scan() {
    let points = scattered(3000, 2000);
    let index = SpatialIndex::build(points.clone());
    let corners = scattered(60, 2400);
    for pair in corners.chunks(2) {
        let (a, b) = (pair[0], pair[1]);
        assert_eq!(sorted(index.query_range(a, b)), scan(&points, a, b));
    }
    assert_eq!(
        sorted(index.query_range((i64::MIN, i64::MIN), (i64::MAX, i64::MAX))),
        sorted(points)
    );
}

#[test]
fn query_takes_the_corners_either_way_round() {
    let points = vec![(1, 1), (2, 5), (7, 3), (9, 9)];
    let index = SpatialIndex::build(points);
    let expected = vec![(1, 1), (2, 5), (7, 3)];
    assert_eq!(sorted(index.query_range((0, 0), (8, 8))), expected);
    assert_eq!(sorted(index.query_range((8, 8), (0, 0))), expected);
    assert_eq!(sorted(index.query_range((0, 8), (8, 0))), expected);
}

#[test]
fn index_keeps_duplicates_and_points_at_the_origin() {
    let points = vec![(0, 0), (0, 0), (0, 0), (4, 4), (4, 4)];
    let index = SpatialIndex::build(points);
    assert_eq!(index.query_range((0, 0), (0, 0)), vec![(0, 0), (0, 0), (0, 0)]);
    assert_eq!(index.query_range((-1, -1), (5, 5)).len(), 5);
}

#[test]
fn index_holds_coordinates_of_any_size() {
    let points = vec![(i64::MIN, i64::MAX), (i64::MAX, i64::MIN), (0, 0), (i64::MAX, i64::MAX)];
    let index = SpatialIndex::build(points);
    assert_eq!(
        sorted(index.query_range((0, 0), (i64::MAX, i64::MAX))),
        vec![(0, 0), (i64::MAX, i64::MAX)]
    );
    assert_eq!(
        index.query_range((i64::MIN, i64::MAX), (i64::MIN, i64::MAX)),
        vec![(i64::MIN, i64::MAX)]
    );
}

#[test]
fn empty_index_answers_with_nothing() {
    let index = SpatialIndex::build(Vec::new());
    assert_eq!(index.query_range((i64::MIN, i64::MIN), (i64::MAX, i64::MAX)), Vec::new());
}

#[test]
fn coordinator_has_nothing_before_the_first_load() {
    let coordinator = Coordinator::new();
    assert_eq!(coordinator.query((i64::MIN, i64::MIN), (i64::MAX, i64::MAX)), Vec::new());
}

#[test]
fn refresh_replaces_the_snapshot_as_a_whole() {
    let everywhere = ((i64::MIN, i64::MIN), (i64::MAX, i64::MAX));
    let mut coordinator = Coordinator::new();
    coordinator.refresh(vec![(1, 1), (2, 2), (3, 3)]);
    assert_eq!(
        sorted(coordinator.query(everywhere.0, everywhere.1)),
        vec![(1, 1), (2, 2), (3, 3)]
    );
    coordinator.refresh(vec![(2, 2), (8, 8)]);
    assert_eq!(sorted(coordinator.query(everywhere.0, everywhere.1)), vec![(2, 2), (8, 8)]);
    assert_eq!(coordinator.query((0, 0), (2, 2)), vec![(2, 2)]);
    coordinator.publish(SpatialIndex::build(Vec::new()));
    assert_eq!(coordinator.query(everywhere.0, everywhere.1), Vec::new());
}
