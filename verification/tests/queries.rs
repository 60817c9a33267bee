use collision_core::geometry::CollisionShape;
use collision_core::geometry::Vec2i;
use collision_core::index::Collidable;
use collision_core::index::CollisionFilter;
use collision_core::index::CollisionIndex;

fn rect(w: i64, h: i64) -> CollisionShape {
    CollisionShape::Rect { size: Vec2i::new(w, h) }
}

fn record(entity: u64, x: i64, y: i64, w: i64, h: i64, flags: u32) -> Collidable {
    Collidable { entity, position: Vec2i::new(x, y), shape: rect(w, h), flags }
}

#[test]
fn empty_index_reports_nothing() {
    let index = CollisionIndex::new();
    assert_eq!(index.query_static(Vec2i::new(0, 0), rect(32, 32), None), None);
    assert_eq!(
        index.query_moving(Vec2i::new(0, 0), Vec2i::new(90, 0), rect(32, 32), None),
        None
    );
}

#[test]
fn query_static_reports_first_in_snapshot_order() {
    let mut index = CollisionIndex::new();
    index.refresh(vec![
        record(5, 100, 100, 10, 10, 1),
        record(8, 0, 0, 20, 20, 1),
        record(9, 4, 4, 20, 20, 1),
    ]);
    // Both 8 and 9 overlap the candidate; 8 comes first in the snapshot.
    assert_eq!(index.query_static(Vec2i::new(0, 0), rect(32, 32), None), Some(8));
    // Reversed order flips the answer.
    index.refresh(vec![
        record(9, 4, 4, 20, 20, 1),
        record(8, 0, 0, 20, 20, 1),
    ]);
    assert_eq!(index.query_static(Vec2i::new(0, 0), rect(32, 32), None), Some(9));
}

#[test]
fn query_honors_exclude_entity() {
    let mut index = CollisionIndex::new();
    index.refresh(vec![record(7, 0, 0, 32, 32, 1)]);
    let shape = rect(32, 32);
    // Without a filter the entity is reported at its own position.
    assert_eq!(index.query_static(Vec2i::new(0, 0), shape, None), Some(7));
    // With itself excluded it never is, at any position or displacement.
    let own = CollisionFilter { exclude_entity: 7, flags: 1 };
    assert_eq!(index.query_static(Vec2i::new(0, 0), shape, Some(own)), None);
    assert_eq!(
        index.query_moving(Vec2i::new(-5, 3), Vec2i::new(50, -50), shape, Some(own)),
        None
    );
}

#[test]
fn query_honors_flag_filtering() {
    let mut index = CollisionIndex::new();
    index.refresh(vec![record(3, 0, 0, 32, 32, 2)]);
    let shape = rect(32, 32);
    // flags 1 & 2 == 0: no hit even at the identical position.
    let f1 = CollisionFilter { exclude_entity: 99, flags: 1 };
    assert_eq!(index.query_static(Vec2i::new(0, 0), shape, Some(f1)), None);
    assert_eq!(
        index.query_moving(Vec2i::new(0, 0), Vec2i::new(1, 1), shape, Some(f1)),
        None
    );
    // flags 3 & 2 != 0: the hit is back.
    let f3 = CollisionFilter { exclude_entity: 99, flags: 3 };
    assert_eq!(index.query_static(Vec2i::new(0, 0), shape, Some(f3)), Some(3));
}

#[test]
fn query_moving_reports_obstacles_on_the_path() {
    let mut index = CollisionIndex::new();
    index.refresh(vec![record(2, 40, 0, 20, 20, 1)]);
    let shape = rect(32, 32);
    let start = Vec2i::new(0, 0);
    assert_eq!(index.query_moving(start, Vec2i::new(90, 0), shape, None), Some(2));
    // The same obstacle far beyond the probe is not reported.
    index.refresh(vec![record(2, 200, 0, 20, 20, 1)]);
    assert_eq!(index.query_moving(start, Vec2i::new(90, 0), shape, None), None);
}

#[test]
fn refresh_replaces_the_snapshot() {
    let mut index = CollisionIndex::new();
    index.refresh(vec![record(1, 0, 0, 32, 32, 1)]);
    assert_eq!(index.query_static(Vec2i::new(0, 0), rect(32, 32), None), Some(1));
    // After a refresh with other records, the old ones are gone entirely.
    index.refresh(vec![record(2, 500, 500, 32, 32, 1)]);
    assert_eq!(index.query_static(Vec2i::new(0, 0), rect(32, 32), None), None);
    assert_eq!(index.query_static(Vec2i::new(500, 500), rect(32, 32), None), Some(2));
}

#[test]
fn refreshing_twice_with_same_input_gives_identical_results() {
    let records = vec![
        record(1, 0, 0, 32, 32, 1),
        record(2, 40, 0, 20, 20, 2),
        record(3, -30, 10, 16, 16, 3),
    ];
    let probes = [
        (Vec2i::new(0, 0), Vec2i::new(90, 0)),
        (Vec2i::new(-30, 0), Vec2i::new(0, 30)),
        (Vec2i::new(40, 0), Vec2i::new(-80, 0)),
        (Vec2i::new(7, 7), Vec2i::new(0, 0)),
    ];
    let filters = [
        None,
        Some(CollisionFilter { exclude_entity: 1, flags: 1 }),
        Some(CollisionFilter { exclude_entity: 9, flags: 2 }),
    ];
    let mut index = CollisionIndex::new();
    index.refresh(records.clone());
    let mut first_round: Vec<Option<u64>> = Vec::new();
    for (pos, disp) in probes {
        for filter in filters {
            first_round.push(index.query_static(pos, rect(24, 24), filter));
            first_round.push(index.query_moving(pos, disp, rect(24, 24), filter));
        }
    }
    index.refresh(records.clone());
    let mut second_round: Vec<Option<u64>> = Vec::new();
    for (pos, disp) in probes {
        for filter in filters {
            second_round.push(index.query_static(pos, rect(24, 24), filter));
            second_round.push(index.query_moving(pos, disp, rect(24, 24), filter));
        }
    }
    assert_eq!(first_round, second_round);
}
