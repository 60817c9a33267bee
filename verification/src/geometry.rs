//! Integer 2D vectors, collision shapes, and the overlap tests.
//!
//! A shape is placed by the *center* position of its bounding box. Two
//! placed rectangles overlap exactly when, on both axes, twice the distance
//! between their centers is strictly less than the sum of their full
//! extents; the strict comparison makes exactly touching edges count as not
//! overlapping. A point is a rectangle of zero extent.
//!
//! The swept test covers a shape moved along a displacement: it checks the
//! axis-aligned box that spans the start and destination placements against
//! the other shape, so an obstacle anywhere between start and destination
//! (inclusive) is reported, but no time of impact is computed.

use vstd::prelude::*;

verus! {

use vstd::math::abs;

/// A 2D vector of integer world coordinates.
#[derive(Clone, Copy, Debug, PartialEq, Eq, Structural)]
pub struct Vec2i {
    pub x: i64,
    pub y: i64,
}

impl Vec2i {
    /// The zero vector.
    pub fn zero() -> (v: Vec2i)
        ensures
            v.x == 0 && v.y == 0,
    {
        Vec2i { x: 0, y: 0 }
    }

    /// Builds the vector `(x, y)`.
    pub fn new(x: i64, y: i64) -> (v: Vec2i)
        ensures
            v.x == x && v.y == y,
    {
        Vec2i { x, y }
    }
}

/// A collision shape: a single point with no extent, or an axis-aligned
/// rectangle of the given full width and height, centered on its position.
#[derive(Clone, Copy, Debug, PartialEq, Eq, Structural)]
pub enum CollisionShape {
    Point,
    Rect { size: Vec2i },
}

/// Full extent of `shape` along the X axis (0 for a point).
pub open spec fn extent_x(shape: CollisionShape) -> int {
    match shape {
        CollisionShape::Point => 0,
        CollisionShape::Rect { size } => size.x as int,
    }
}

/// Full extent of `shape` along the Y axis (0 for a point).
pub open spec fn extent_y(shape: CollisionShape) -> int {
    match shape {
        CollisionShape::Point => 0,
        CollisionShape::Rect { size } => size.y as int,
    }
}

/// Two intervals centered at `c1` and `c2`, with full extents `e1` and `e2`,
/// share interior points: twice the center distance is strictly below the
/// sum of the extents.
pub open spec fn axis_overlaps(c1: int, e1: int, c2: int, e2: int) -> bool {
    2 * abs(c1 - c2) < e1 + e2
}

/// The interval of extent `e1` swept from center `c1` to center `c1 + d`
/// shares interior points with the interval of extent `e2` at center `c2`.
pub open spec fn axis_sweep_overlaps(c1: int, d: int, e1: int, c2: int, e2: int) -> bool {
    let lo = if d < 0 { c1 + d } else { c1 };
    let hi = if d < 0 { c1 } else { c1 + d };
    2 * lo - e1 < 2 * c2 + e2 && 2 * c2 - e2 < 2 * hi + e1
}

/// `shape_a` placed at `pos_a` overlaps `shape_b` placed at `pos_b`:
/// the exclusive axis test holds on both axes.
pub open spec fn overlaps(
    shape_a: CollisionShape,
    pos_a: Vec2i,
    shape_b: CollisionShape,
    pos_b: Vec2i,
) -> bool {
    &&& axis_overlaps(pos_a.x as int, extent_x(shape_a), pos_b.x as int, extent_x(shape_b))
    &&& axis_overlaps(pos_a.y as int, extent_y(shape_a), pos_b.y as int, extent_y(shape_b))
}

/// `shape_a` swept from `pos_a` along the displacement `(dx, dy)` overlaps
/// `shape_b` placed at `pos_b`: the box spanning the start and destination
/// placements of `shape_a` passes the exclusive axis test on both axes.
pub open spec fn sweep_overlaps(
    shape_a: CollisionShape,
    pos_a: Vec2i,
    dx: int,
    dy: int,
    shape_b: CollisionShape,
    pos_b: Vec2i,
) -> bool {
    &&& axis_sweep_overlaps(pos_a.x as int, dx, extent_x(shape_a), pos_b.x as int, extent_x(shape_b))
    &&& axis_sweep_overlaps(pos_a.y as int, dy, extent_y(shape_a), pos_b.y as int, extent_y(shape_b))
}

fn extent_x_exec(shape: &CollisionShape) -> (e: i64)
    ensures
        e as int == extent_x(*shape),
{
    match shape {
        CollisionShape::Point => 0,
        CollisionShape::Rect { size } => size.x,
    }
}

fn extent_y_exec(shape: &CollisionShape) -> (e: i64)
    ensures
        e as int == extent_y(*shape),
{
    match shape {
        CollisionShape::Point => 0,
        CollisionShape::Rect { size } => size.y,
    }
}

fn axis_overlaps_exec(c1: i64, e1: i64, c2: i64, e2: i64) -> (b: bool)
    ensures
        b == axis_overlaps(c1 as int, e1 as int, c2 as int, e2 as int),
{
    let diff: i128 = c1 as i128 - c2 as i128;
    let dist: i128 = if diff < 0 {
        -diff
    } else {
        diff
    };
    2 * dist < e1 as i128 + e2 as i128
}

fn axis_sweep_overlaps_exec(c1: i64, d: i64, e1: i64, c2: i64, e2: i64) -> (b: bool)
    ensures
        b == axis_sweep_overlaps(c1 as int, d as int, e1 as int, c2 as int, e2 as int),
{
    let start: i128 = c1 as i128;
    let dest: i128 = c1 as i128 + d as i128;
    let lo: i128 = if d < 0 {
        dest
    } else {
        start
    };
    let hi: i128 = if d < 0 {
        start
    } else {
        dest
    };
    let center: i128 = c2 as i128;
    let e_moving: i128 = e1 as i128;
    let e_still: i128 = e2 as i128;
    2 * lo - e_moving < 2 * center + e_still && 2 * center - e_still < 2 * hi + e_moving
}

/// Does `shape_a` placed at `pos_a` overlap `shape_b` placed at `pos_b`?
pub fn overlaps_at(
    shape_a: CollisionShape,
    pos_a: Vec2i,
    shape_b: CollisionShape,
    pos_b: Vec2i,
) -> (b: bool)
    ensures
        b == overlaps(shape_a, pos_a, shape_b, pos_b),
{
    let ea_x: i64 = extent_x_exec(&shape_a);
    let ea_y: i64 = extent_y_exec(&shape_a);
    let eb_x: i64 = extent_x_exec(&shape_b);
    let eb_y: i64 = extent_y_exec(&shape_b);
    axis_overlaps_exec(pos_a.x, ea_x, pos_b.x, eb_x) && axis_overlaps_exec(
        pos_a.y,
        ea_y,
        pos_b.y,
        eb_y,
    )
}

/// Does `shape_a`, swept from `pos_a` along `disp`, overlap `shape_b`
/// placed at `pos_b` anywhere between start and destination?
pub fn sweep_overlaps_at(
    shape_a: CollisionShape,
    pos_a: Vec2i,
    disp: Vec2i,
    shape_b: CollisionShape,
    pos_b: Vec2i,
) -> (b: bool)
    ensures
        b == sweep_overlaps(shape_a, pos_a, disp.x as int, disp.y as int, shape_b, pos_b),
{
    let ea_x: i64 = extent_x_exec(&shape_a);
    let ea_y: i64 = extent_y_exec(&shape_a);
    let eb_x: i64 = extent_x_exec(&shape_b);
    let eb_y: i64 = extent_y_exec(&shape_b);
    axis_sweep_overlaps_exec(pos_a.x, disp.x, ea_x, pos_b.x, eb_x) && axis_sweep_overlaps_exec(
        pos_a.y,
        disp.y,
        ea_y,
        pos_b.y,
        eb_y,
    )
}

/// A sweep along the zero displacement is exactly the overlap test at rest:
/// the swept box of a shape that does not move is the shape's own box.
pub proof fn lemma_sweep_of_zero_is_overlap(
    shape_a: CollisionShape,
    pos_a: Vec2i,
    shape_b: CollisionShape,
    pos_b: Vec2i,
)
    ensures
        sweep_overlaps(shape_a, pos_a, 0, 0, shape_b, pos_b) == overlaps(
            shape_a,
            pos_a,
            shape_b,
            pos_b,
        ),
{
}

/// Overlap is symmetric: whether two placed shapes overlap does not depend
/// on which of them is the query shape and which the candidate.
pub proof fn lemma_overlaps_symmetric(
    shape_a: CollisionShape,
    pos_a: Vec2i,
    shape_b: CollisionShape,
    pos_b: Vec2i,
)
    ensures
        overlaps(shape_a, pos_a, shape_b, pos_b) == overlaps(shape_b, pos_b, shape_a, pos_a),
{
}

/// Two rectangles of one size placed at the same position overlap, provided
/// the size has positive extent on both axes.
pub proof fn lemma_identical_rects_overlap(pos: Vec2i, size: Vec2i)
    requires
        size.x > 0,
        size.y > 0,
    ensures
        overlaps(
            CollisionShape::Rect { size },
            pos,
            CollisionShape::Rect { size },
            pos,
        ),
{
}

/// Sliding one of two same-sized rectangles along the X axis, they overlap
/// exactly while the center offset stays strictly below the sum of the half
/// extents (here: the full common extent). At exactly that offset the edges
/// touch and the rectangles no longer overlap: the boundary is exclusive.
pub proof fn lemma_rect_separation_x(pos_a: Vec2i, pos_b: Vec2i, size: Vec2i)
    requires
        pos_a.y == pos_b.y,
        size.y > 0,
    ensures
        overlaps(
            CollisionShape::Rect { size },
            pos_a,
            CollisionShape::Rect { size },
            pos_b,
        ) <==> abs(pos_b.x - pos_a.x) < size.x,
{
}

} // verus!
