use mayara::trails::{TrailPoint, TrailSettings, TrailStore};

fn at(t: u64) -> TrailPoint {
    TrailPoint { timestamp: t, bearing: 450, distance: 1000 }
}

#[test]
fn trail_bounded_by_points() {
    let mut store = TrailStore::new(TrailSettings { max_points: 3, max_age_ms: 1_000_000 });
    for t in 0..5 {
        store.add_point(7, at(t * 10));
    }
    let trail = store.get_trail(7).unwrap();
    let times: Vec<u64> = trail.points.iter().map(|p| p.timestamp).collect();
    assert_eq!(times, vec![20, 30, 40]);
}

#[test]
fn trail_bounded_by_age() {
    let mut store = TrailStore::new(TrailSettings { max_points: 100, max_age_ms: 15 });
    for t in 0..5 {
        store.add_point(1, at(t * 10));
    }
    let times: Vec<u64> = store.get_trail(1).unwrap().points.iter().map(|p| p.timestamp).collect();
    assert_eq!(times, vec![30, 40]);
    assert!(store.get_trail(2).is_none());
}

#[test]
fn trail_clearing() {
    let mut store = TrailStore::new(TrailSettings { max_points: 10, max_age_ms: 100 });
    store.add_point(1, at(1));
    store.add_point(2, at(1));
    store.clear_trail(1);
    assert!(store.get_trail(1).is_none());
    assert!(store.get_trail(2).is_some());
    store.clear_all();
    assert!(store.get_trail(2).is_none());
    store.set_settings(TrailSettings { max_points: 0, max_age_ms: 0 });
    store.add_point(3, at(5));
    assert!(store.get_trail(3).unwrap().points.is_empty());
    assert_eq!(store.settings().max_points, 0);
}

#[test]
fn trail_keeps_other_targets() {
    let mut store = TrailStore::new(TrailSettings { max_points: 2, max_age_ms: 1000 });
    store.add_point(1, at(1));
    store.add_point(2, at(2));
    store.add_point(1, at(3));
    store.add_point(1, at(4));
    let one: Vec<u64> = store.get_trail(1).unwrap().points.iter().map(|p| p.timestamp).collect();
    assert_eq!(one, vec![3, 4]);
    assert_eq!(store.get_trail(2).unwrap().points.len(), 1);
}
