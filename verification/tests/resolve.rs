use collision_core::geometry::CollisionShape;
use collision_core::geometry::Vec2i;
use collision_core::index::Collidable;
use collision_core::index::CollisionFilter;
use collision_core::index::CollisionIndex;
use collision_core::resolver::intended_displacement;
use collision_core::resolver::resolve;

fn rect(w: i64, h: i64) -> CollisionShape {
    CollisionShape::Rect { size: Vec2i::new(w, h) }
}

fn record(entity: u64, x: i64, y: i64, w: i64, h: i64, flags: u32) -> Collidable {
    Collidable { entity, position: Vec2i::new(x, y), shape: rect(w, h), flags }
}

/// The standard setup of the scenarios: the mover (entity 1, 32x32 rect at
/// the origin) and one obstacle (entity 2, 20x20 rect), both on layer 1.
fn setup(obstacle_x: i64, obstacle_y: i64) -> (CollisionIndex, CollisionFilter) {
    let mut index = CollisionIndex::new();
    index.refresh(vec![
        record(1, 0, 0, 32, 32, 1),
        record(2, obstacle_x, obstacle_y, 20, 20, 1),
    ]);
    (index, CollisionFilter { exclude_entity: 1, flags: 1 })
}

#[test]
fn zero_movement_input_is_a_no_op() {
    let (index, filter) = setup(40, 0);
    let t = resolve(&index, Vec2i::new(0, 0), Vec2i::new(0, 0), 300, rect(32, 32), Some(filter), 100);
    assert_eq!((t.x, t.y), (0, 0));
    // Also with no filter, another position, another shape and dt.
    let t = resolve(
        &index,
        Vec2i::new(40, 0),
        Vec2i::new(0, 0),
        1000,
        CollisionShape::Point,
        None,
        16,
    );
    assert_eq!((t.x, t.y), (0, 0));
}

#[test]
fn blocked_ahead_on_x_blocks_the_whole_translation() {
    // Mover at (0,0), 32x32; obstacle 20x20 at (40,0). Input (1,0) at speed
    // 300 with dt 100 ms intends 30 on X; the probe reaches 90 ahead and
    // meets the obstacle, so nothing moves.
    let (index, filter) = setup(40, 0);
    let t = resolve(&index, Vec2i::new(0, 0), Vec2i::new(1, 0), 300, rect(32, 32), Some(filter), 100);
    assert_eq!((t.x, t.y), (0, 0));
}

#[test]
fn clear_ahead_on_x_commits_the_full_displacement() {
    // Same setup, obstacle at (200,0): the 90-unit probe does not reach it.
    let (index, filter) = setup(200, 0);
    let t = resolve(&index, Vec2i::new(0, 0), Vec2i::new(1, 0), 300, rect(32, 32), Some(filter), 100);
    assert_eq!((t.x, t.y), (30, 0));
}

#[test]
fn blocked_x_still_slides_along_y() {
    // Diagonal input (1,1): both components intend 21 (300 * 0.1s / sqrt 2,
    // rounded down). X is blocked by the obstacle ahead; Y is clear, so the
    // mover slides along the wall.
    let (index, filter) = setup(40, 0);
    let t = resolve(&index, Vec2i::new(0, 0), Vec2i::new(1, 1), 300, rect(32, 32), Some(filter), 100);
    assert_eq!((t.x, t.y), (0, 21));
}

#[test]
fn y_probe_uses_the_pre_move_position() {
    // An obstacle placed diagonally so that it blocks neither the pure X
    // probe path nor the pure Y probe path: both axes commit, even though
    // the combined move heads straight at it. The accepted approximation.
    let mut index = CollisionIndex::new();
    index.refresh(vec![
        record(1, 0, 0, 32, 32, 1),
        record(2, 70, 70, 20, 20, 1),
    ]);
    let filter = CollisionFilter { exclude_entity: 1, flags: 1 };
    let t = resolve(&index, Vec2i::new(0, 0), Vec2i::new(1, 1), 300, rect(32, 32), Some(filter), 100);
    assert_eq!((t.x, t.y), (21, 21));
}

#[test]
fn resolve_honors_flag_filtering() {
    // The obstacle sits on layer 2; the filter probes layer 1 only, so the
    // mover walks straight through.
    let mut index = CollisionIndex::new();
    index.refresh(vec![
        record(1, 0, 0, 32, 32, 1),
        record(2, 40, 0, 20, 20, 2),
    ]);
    let filter = CollisionFilter { exclude_entity: 1, flags: 1 };
    let t = resolve(&index, Vec2i::new(0, 0), Vec2i::new(1, 0), 300, rect(32, 32), Some(filter), 100);
    assert_eq!((t.x, t.y), (30, 0));
}

#[test]
fn negative_direction_is_blocked_symmetrically() {
    let (index, filter) = setup(-40, 0);
    let t = resolve(
        &index,
        Vec2i::new(0, 0),
        Vec2i::new(-1, 0),
        300,
        rect(32, 32),
        Some(filter),
        100,
    );
    assert_eq!((t.x, t.y), (0, 0));
    let (index, filter) = setup(-200, 0);
    let t = resolve(
        &index,
        Vec2i::new(0, 0),
        Vec2i::new(-1, 0),
        300,
        rect(32, 32),
        Some(filter),
        100,
    );
    assert_eq!((t.x, t.y), (-30, 0));
}

#[test]
fn intended_displacement_normalizes_exactly_on_axes() {
    let d = intended_displacement(Vec2i::new(1, 0), 300, 100);
    assert_eq!((d.x, d.y), (30, 0));
    let d = intended_displacement(Vec2i::new(0, -1), 300, 100);
    assert_eq!((d.x, d.y), (0, -30));
    // Only the direction of the input matters, not its magnitude.
    let d = intended_displacement(Vec2i::new(250, 0), 300, 100);
    assert_eq!((d.x, d.y), (30, 0));
}

#[test]
fn intended_displacement_scales_pythagorean_inputs_exactly() {
    // |(3,4)| = 5, so at speed 500 over a full second the displacement is
    // the input scaled to length 500.
    let d = intended_displacement(Vec2i::new(3, 4), 500, 1000);
    assert_eq!((d.x, d.y), (300, 400));
    let d = intended_displacement(Vec2i::new(-3, 4), 500, 1000);
    assert_eq!((d.x, d.y), (-300, 400));
}

#[test]
fn intended_displacement_rounds_diagonals_down() {
    // (1,1) normalized is 0.7071...; 300 * 0.1s * 0.7071 = 21.2 -> 21.
    let d = intended_displacement(Vec2i::new(1, 1), 300, 100);
    assert_eq!((d.x, d.y), (21, 21));
}

#[test]
fn zero_speed_or_zero_dt_moves_nothing() {
    let (index, filter) = setup(200, 0);
    let t = resolve(&index, Vec2i::new(0, 0), Vec2i::new(1, 0), 0, rect(32, 32), Some(filter), 100);
    assert_eq!((t.x, t.y), (0, 0));
    let t = resolve(&index, Vec2i::new(0, 0), Vec2i::new(1, 0), 300, rect(32, 32), Some(filter), 0);
    assert_eq!((t.x, t.y), (0, 0));
}
