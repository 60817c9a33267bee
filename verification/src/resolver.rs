//! The movement resolver.
//!
//! Each tick, a moving entity hands the resolver its raw movement input
//! (any integer vector; only the direction matters), its top speed in world
//! units per second, its collision shape, an optional filter (normally one
//! that excludes the entity itself), and the tick's time step in
//! milliseconds. The resolver:
//!
//! 1. returns the zero translation at once for a zero movement input;
//! 2. scales the input to unit length and multiplies by speed and time
//!    step, in fixed-point integer arithmetic ([`intended_displacement`]),
//!    giving the intended per-tick displacement;
//! 3. probes each axis component separately, scaled by the look-ahead
//!    factor [`LOOK_AHEAD`], against the collision index — both probes from
//!    the *pre-move* position — and commits a component only when its probe
//!    hits nothing.
//!
//! The sum of the committed components is the translation. Probing the two
//! axes independently from the pre-move position is deliberate: an entity
//! blocked on one axis still moves on the other and so slides along
//! obstacles, and a diagonal mover may commit both axes even when the
//! combined displacement would overlap. This is a cheap arcade-style
//! approximation, not a continuous-collision solver, and it is part of the
//! component's contract.

use vstd::prelude::*;

verus! {

use vstd::arithmetic::div_mod::lemma_div_is_ordered;
use vstd::arithmetic::div_mod::lemma_div_is_ordered_by_denominator;
use vstd::arithmetic::div_mod::lemma_div_multiples_vanish_quotient;
use vstd::arithmetic::div_mod::lemma_div_pos_is_pos;
use vstd::math::abs;

use crate::geometry::CollisionShape;
use crate::geometry::Vec2i;
use crate::index::Collidable;
use crate::index::CollisionFilter;
use crate::index::CollisionIndex;
use crate::index::first_moving_hit;

/// Fixed-point scale used to normalize a movement input to unit length:
/// directions are computed in thousandths.
pub const SCALE: i64 = 1000;

/// Milliseconds per second; time steps are given in milliseconds while
/// speeds are world units per second.
pub const MS_PER_SECOND: i64 = 1000;

/// Look-ahead factor of the per-axis probes: each axis component of the
/// intended displacement is probed this many times farther than the entity
/// would actually move this tick.
pub const LOOK_AHEAD: i64 = 3;

/// Largest magnitude accepted for a movement input component.
pub const MAX_INPUT: i64 = 1000000;

/// Largest accepted speed, in world units per second.
pub const MAX_SPEED: i64 = 1000000;

/// Largest accepted time step, in milliseconds.
pub const MAX_DT_MS: i64 = 1000000;

/// The largest `r` with `r * r <= n`: the square root of `n`, rounded down
/// (0 for a negative `n`, which never arises here).
pub open spec fn sqrt_floor(n: int) -> int
    decreases n,
{
    if n <= 0 {
        0
    } else {
        let r = sqrt_floor(n - 1);
        if (r + 1) * (r + 1) <= n {
            r + 1
        } else {
            r
        }
    }
}

/// `sqrt_floor(n)` is nonnegative, its square is at most `n`, and the next
/// square is beyond `n`: it is the rounded-down square root.
pub proof fn lemma_sqrt_floor_bounds(n: int)
    requires
        0 <= n,
    ensures
        0 <= sqrt_floor(n),
        sqrt_floor(n) * sqrt_floor(n) <= n,
        n < (sqrt_floor(n) + 1) * (sqrt_floor(n) + 1),
    decreases n,
{
    let s = sqrt_floor(n);
    if n == 0 {
        assert(s == 0);
        assert(s * s <= n && n < (s + 1) * (s + 1)) by (nonlinear_arith)
            requires
                s == 0,
                n == 0,
        ;
    } else {
        lemma_sqrt_floor_bounds(n - 1);
        let r = sqrt_floor(n - 1);
        if (r + 1) * (r + 1) <= n {
            assert(s == r + 1);
            assert(s * s <= n) by (nonlinear_arith)
                requires
                    s == r + 1,
                    (r + 1) * (r + 1) <= n,
            ;
            assert(n < (s + 1) * (s + 1)) by (nonlinear_arith)
                requires
                    s == r + 1,
                    0 <= r,
                    n - 1 < (r + 1) * (r + 1),
            ;
        } else {
            assert(s == r);
            assert(s * s <= n) by (nonlinear_arith)
                requires
                    s == r,
                    r * r <= n - 1,
            ;
            assert(n < (s + 1) * (s + 1)) by (nonlinear_arith)
                requires
                    s == r,
                    !((r + 1) * (r + 1) <= n),
            ;
        }
    }
}

/// Any nonnegative `r` whose square is at most `n` while the next square is
/// beyond `n` is `sqrt_floor(n)`: the rounded-down square root is unique.
pub proof fn lemma_sqrt_floor_unique(n: int, r: int)
    requires
        0 <= r,
        r * r <= n,
        n < (r + 1) * (r + 1),
    ensures
        r == sqrt_floor(n),
{
    lemma_sqrt_floor_bounds(n);
    let s = sqrt_floor(n);
    if r < s {
        assert((r + 1) * (r + 1) <= s * s) by (nonlinear_arith)
            requires
                0 <= r,
                r + 1 <= s,
        ;
    } else if s < r {
        assert((s + 1) * (s + 1) <= r * r) by (nonlinear_arith)
            requires
                0 <= s,
                s + 1 <= r,
        ;
    }
}

/// The square root of `n`, rounded down, by binary search.
fn isqrt(n: u64) -> (r: u64)
    ensures
        r as int == sqrt_floor(n as int),
        r * r <= n < (r + 1) * (r + 1),
{
    let mut lo: u64 = 0;
    let mut hi: u64 = 4294967296;
    while lo + 1 < hi
        invariant
            lo < hi <= 4294967296,
            lo * lo <= n,
            n < hi * hi,
        decreases hi - lo,
    {
        let mid: u64 = lo + (hi - lo) / 2;
        proof {
            assert(mid * mid <= 0x10000000000000000) by (nonlinear_arith)
                requires
                    mid <= 0x100000000,
            ;
        }
        if (mid as u128) * (mid as u128) <= n as u128 {
            lo = mid;
        } else {
            hi = mid;
        }
    }
    proof {
        lemma_sqrt_floor_unique(n as int, lo as int);
    }
    lo
}

/// One axis component of the intended per-tick displacement for a movement
/// input whose component along this axis is `v` and along the other axis is
/// `w`: the input scaled to unit length (in [`SCALE`]-ths, rounding the
/// length down), times `speed`, times `dt_ms` milliseconds, with the final
/// division rounding the magnitude down.
pub open spec fn scaled_axis(v: int, w: int, speed: int, dt_ms: int) -> int {
    if v == 0 {
        0
    } else {
        let av = abs(v) as int;
        let aw = abs(w) as int;
        let root = sqrt_floor((av * av + aw * aw) * (SCALE * SCALE));
        let mag = (av * speed * dt_ms * SCALE) / (MS_PER_SECOND * root);
        if v < 0 {
            -mag
        } else {
            mag
        }
    }
}

proof fn lemma_norm_bound(av: int, aw: int, speed: int, dt_ms: int, root: int)
    requires
        1 <= av,
        0 <= aw,
        0 <= speed,
        0 <= dt_ms,
        0 <= root,
        root * root <= (av * av + aw * aw) * (SCALE * SCALE),
        (av * av + aw * aw) * (SCALE * SCALE) < (root + 1) * (root + 1),
    ensures
        0 <= (av * speed * dt_ms * SCALE) / (MS_PER_SECOND * root),
        (av * speed * dt_ms * SCALE) / (MS_PER_SECOND * root) <= speed * dt_ms / (
        MS_PER_SECOND as int),
{
    let num = av * speed * dt_ms * SCALE;
    assert((av * SCALE) * (av * SCALE) <= (av * av + aw * aw) * (SCALE * SCALE))
        by (nonlinear_arith)
        requires
            1 <= av,
            0 <= aw,
    ;
    assert(av * SCALE <= root) by {
        if root < av * SCALE {
            assert((root + 1) * (root + 1) <= (av * SCALE) * (av * SCALE)) by (nonlinear_arith)
                requires
                    0 <= root,
                    root + 1 <= av * SCALE,
            ;
        }
    }
    assert(av * speed * dt_ms * SCALE == (av * SCALE) * (speed * dt_ms)) by (nonlinear_arith);
    assert(0 <= speed * dt_ms) by (nonlinear_arith)
        requires
            0 <= speed,
            0 <= dt_ms,
    ;
    assert(0 <= av * speed * dt_ms * SCALE) by (nonlinear_arith)
        requires
            1 <= av,
            0 <= speed,
            0 <= dt_ms,
    ;
    assert(1 <= av * SCALE) by (nonlinear_arith)
        requires
            1 <= av,
    ;
    assert(1 <= MS_PER_SECOND * (av * SCALE)) by (nonlinear_arith)
        requires
            1 <= av,
    ;
    assert(MS_PER_SECOND * (av * SCALE) <= MS_PER_SECOND * root) by (nonlinear_arith)
        requires
            av * SCALE <= root,
    ;
    lemma_div_is_ordered_by_denominator(num, MS_PER_SECOND * (av * SCALE), MS_PER_SECOND * root);
    lemma_div_multiples_vanish_quotient(av * SCALE, speed * dt_ms, MS_PER_SECOND as int);
    assert((av * SCALE) * (MS_PER_SECOND as int) == MS_PER_SECOND * (av * SCALE))
        by (nonlinear_arith);
    assert(num / (MS_PER_SECOND * (av * SCALE)) == (speed * dt_ms) / (MS_PER_SECOND as int));
    lemma_div_pos_is_pos(num, MS_PER_SECOND * root);
}

/// The magnitude of a scaled axis component never exceeds
/// `speed * dt_ms / MS_PER_SECOND`: normalization cannot speed an entity
/// up, whatever the direction.
pub proof fn lemma_scaled_axis_bound(v: int, w: int, speed: int, dt_ms: int)
    requires
        -MAX_INPUT <= v <= MAX_INPUT,
        -MAX_INPUT <= w <= MAX_INPUT,
        0 <= speed <= MAX_SPEED,
        0 <= dt_ms <= MAX_DT_MS,
    ensures
        abs(scaled_axis(v, w, speed, dt_ms)) <= speed * dt_ms / (MS_PER_SECOND as int),
{
    assert(0 <= speed * dt_ms) by (nonlinear_arith)
        requires
            0 <= speed,
            0 <= dt_ms,
    ;
    lemma_div_pos_is_pos(speed * dt_ms, MS_PER_SECOND as int);
    if v != 0 {
        let av = abs(v) as int;
        let aw = abs(w) as int;
        let n = (av * av + aw * aw) * (SCALE * SCALE);
        assert(0 <= n) by (nonlinear_arith)
            requires
                0 <= av,
                0 <= aw,
                n == (av * av + aw * aw) * (SCALE * SCALE),
        ;
        lemma_sqrt_floor_bounds(n);
        let root = sqrt_floor(n);
        lemma_norm_bound(av, aw, speed, dt_ms, root);
    }
}

/// One axis component of the intended displacement, executable.
fn scaled_axis_exec(v: i64, w: i64, speed: i64, dt_ms: i64) -> (r: i64)
    requires
        -MAX_INPUT <= v <= MAX_INPUT,
        -MAX_INPUT <= w <= MAX_INPUT,
        0 <= speed <= MAX_SPEED,
        0 <= dt_ms <= MAX_DT_MS,
    ensures
        r as int == scaled_axis(v as int, w as int, speed as int, dt_ms as int),
        abs(r as int) <= speed * dt_ms / (MS_PER_SECOND as int),
        abs(r as int) <= 1000000000,
{
    proof {
        lemma_scaled_axis_bound(v as int, w as int, speed as int, dt_ms as int);
        assert(speed * dt_ms <= 1000000000000) by (nonlinear_arith)
            requires
                0 <= speed <= 1000000,
                0 <= dt_ms <= 1000000,
        ;
        lemma_div_is_ordered(speed * dt_ms, 1000000000000, MS_PER_SECOND as int);
    }
    if v == 0 {
        return 0;
    }
    let av: i64 = if v < 0 {
        -v
    } else {
        v
    };
    let aw: i64 = if w < 0 {
        -w
    } else {
        w
    };
    proof {
        assert(1 <= av * av <= 1000000000000 && aw * aw <= 1000000000000) by (nonlinear_arith)
            requires
                1 <= av <= 1000000,
                0 <= aw <= 1000000,
        ;
    }
    let squares: u64 = (av as u64) * (av as u64) + (aw as u64) * (aw as u64);
    proof {
        assert((av as u64) as int == av as int);
        assert((aw as u64) as int == aw as int);
        assert(squares as int == av * av + aw * aw);
        assert(1 <= squares as int <= 2000000000000);
        assert((squares as int) * 1000000 <= 2000000000000000000) by (nonlinear_arith)
            requires
                1 <= squares as int <= 2000000000000,
        ;
    }
    let n: u64 = squares * 1000000;
    let root: u64 = isqrt(n);
    proof {
        let avs = abs(v as int) as int;
        let aws = abs(w as int) as int;
        assert(avs == av as int);
        assert(aws == aw as int);
        assert(n as int == (avs * avs + aws * aws) * (SCALE * SCALE));
        assert(root as int == sqrt_floor((avs * avs + aws * aws) * (SCALE * SCALE)));
        assert(root >= 1) by {
            if root == 0 {
                assert((root as int + 1) * (root as int + 1) == 1) by (nonlinear_arith)
                    requires
                        root == 0,
                ;
                assert(n as int >= 1000000) by (nonlinear_arith)
                    requires
                        n as int == (squares as int) * 1000000,
                        1 <= squares as int,
                ;
            }
        }
        assert(av * speed <= 1000000000000) by (nonlinear_arith)
            requires
                0 <= av <= 1000000,
                0 <= speed <= 1000000,
        ;
        assert(av * speed * dt_ms <= 1000000000000000000) by (nonlinear_arith)
            requires
                0 <= av * speed <= 1000000000000,
                0 <= dt_ms <= 1000000,
        ;
        assert(0 <= av * speed * dt_ms) by (nonlinear_arith)
            requires
                0 <= av,
                0 <= speed,
                0 <= dt_ms,
        ;
    }
    let num: u128 = (av as u128) * (speed as u128) * (dt_ms as u128) * 1000;
    let den: u128 = 1000 * (root as u128);
    let mag: u128 = num / den;
    proof {
        let avs = abs(v as int) as int;
        assert(avs == av as int);
        assert(num as int == avs * (speed as int) * (dt_ms as int) * SCALE);
        assert(den as int == MS_PER_SECOND * (root as int));
        assert(mag as int == (avs * (speed as int) * (dt_ms as int) * SCALE) / (MS_PER_SECOND * (
        root as int)));
        assert(mag as int == abs(scaled_axis(v as int, w as int, speed as int, dt_ms as int)));
    }
    if v < 0 {
        -(mag as i64)
    } else {
        mag as i64
    }
}

/// The intended per-tick displacement for a movement input: the input
/// scaled to unit length (in fixed point, rounding down) times `max_speed`
/// times the time step. A zero input gives the zero displacement; an input
/// along one axis gives exactly `max_speed * dt_ms / MS_PER_SECOND` along
/// that axis.
pub fn intended_displacement(movement_input: Vec2i, max_speed: i64, dt_ms: i64) -> (d: Vec2i)
    requires
        -MAX_INPUT <= movement_input.x <= MAX_INPUT,
        -MAX_INPUT <= movement_input.y <= MAX_INPUT,
        0 <= max_speed <= MAX_SPEED,
        0 <= dt_ms <= MAX_DT_MS,
    ensures
        d.x as int == scaled_axis(
            movement_input.x as int,
            movement_input.y as int,
            max_speed as int,
            dt_ms as int,
        ),
        d.y as int == scaled_axis(
            movement_input.y as int,
            movement_input.x as int,
            max_speed as int,
            dt_ms as int,
        ),
        abs(d.x as int) <= max_speed * dt_ms / (MS_PER_SECOND as int),
        abs(d.y as int) <= max_speed * dt_ms / (MS_PER_SECOND as int),
        abs(d.x as int) <= 1000000000,
        abs(d.y as int) <= 1000000000,
{
    Vec2i {
        x: scaled_axis_exec(movement_input.x, movement_input.y, max_speed, dt_ms),
        y: scaled_axis_exec(movement_input.y, movement_input.x, max_speed, dt_ms),
    }
}

/// The X component of the translation that a resolve returns: the intended
/// X displacement if its look-ahead probe hits nothing, else zero.
pub open spec fn resolved_x(
    s: Seq<Collidable>,
    pos: Vec2i,
    movement_input: Vec2i,
    speed: int,
    dt_ms: int,
    shape: CollisionShape,
    filter: Option<CollisionFilter>,
) -> int {
    let dx = scaled_axis(movement_input.x as int, movement_input.y as int, speed, dt_ms);
    if first_moving_hit(s, pos, LOOK_AHEAD * dx, 0, shape, filter) == Option::None::<u64> {
        dx
    } else {
        0
    }
}

/// The Y component of the translation that a resolve returns: the intended
/// Y displacement if its look-ahead probe hits nothing, else zero.
pub open spec fn resolved_y(
    s: Seq<Collidable>,
    pos: Vec2i,
    movement_input: Vec2i,
    speed: int,
    dt_ms: int,
    shape: CollisionShape,
    filter: Option<CollisionFilter>,
) -> int {
    let dy = scaled_axis(movement_input.y as int, movement_input.x as int, speed, dt_ms);
    if first_moving_hit(s, pos, 0, LOOK_AHEAD * dy, shape, filter) == Option::None::<u64> {
        dy
    } else {
        0
    }
}

/// Resolves a movement request against the current snapshot of `index`:
/// computes the intended per-tick displacement from `movement_input`,
/// `max_speed` and `dt_ms`, probes its X and Y components independently —
/// both from the pre-move position `pos`, each scaled by [`LOOK_AHEAD`] —
/// and returns the sum of the components whose probes hit nothing. A zero
/// movement input returns the zero translation for any position and shape.
pub fn resolve(
    index: &CollisionIndex,
    pos: Vec2i,
    movement_input: Vec2i,
    max_speed: i64,
    shape: CollisionShape,
    filter: Option<CollisionFilter>,
    dt_ms: i64,
) -> (t: Vec2i)
    requires
        -MAX_INPUT <= movement_input.x <= MAX_INPUT,
        -MAX_INPUT <= movement_input.y <= MAX_INPUT,
        0 <= max_speed <= MAX_SPEED,
        0 <= dt_ms <= MAX_DT_MS,
    ensures
        t.x as int == resolved_x(
            index@,
            pos,
            movement_input,
            max_speed as int,
            dt_ms as int,
            shape,
            filter,
        ),
        t.y as int == resolved_y(
            index@,
            pos,
            movement_input,
            max_speed as int,
            dt_ms as int,
            shape,
            filter,
        ),
        movement_input.x == 0 && movement_input.y == 0 ==> t.x == 0 && t.y == 0,
{
    if movement_input.x == 0 && movement_input.y == 0 {
        return Vec2i::zero();
    }
    let d: Vec2i = intended_displacement(movement_input, max_speed, dt_ms);
    let probe_x: Vec2i = Vec2i { x: LOOK_AHEAD * d.x, y: 0 };
    let probe_y: Vec2i = Vec2i { x: 0, y: LOOK_AHEAD * d.y };
    let hit_x: Option<u64> = index.query_moving(pos, probe_x, shape, filter);
    let hit_y: Option<u64> = index.query_moving(pos, probe_y, shape, filter);
    let tx: i64 = if hit_x.is_none() {
        d.x
    } else {
        0
    };
    let ty: i64 = if hit_y.is_none() {
        d.y
    } else {
        0
    };
    Vec2i { x: tx, y: ty }
}

/// Sliding along an obstacle: when the X-axis probe of a resolve reports a
/// hit while the Y-axis probe reports none, the translation's X component
/// is zero and its Y component is still the full intended Y displacement —
/// a blocked axis never blocks the other.
pub proof fn lemma_resolve_slides(
    s: Seq<Collidable>,
    pos: Vec2i,
    movement_input: Vec2i,
    speed: int,
    dt_ms: int,
    shape: CollisionShape,
    filter: Option<CollisionFilter>,
)
    requires
        first_moving_hit(
            s,
            pos,
            LOOK_AHEAD * scaled_axis(movement_input.x as int, movement_input.y as int, speed, dt_ms),
            0,
            shape,
            filter,
        ) != Option::None::<u64>,
        first_moving_hit(
            s,
            pos,
            0,
            LOOK_AHEAD * scaled_axis(movement_input.y as int, movement_input.x as int, speed, dt_ms),
            shape,
            filter,
        ) == Option::None::<u64>,
    ensures
        resolved_x(s, pos, movement_input, speed, dt_ms, shape, filter) == 0,
        resolved_y(s, pos, movement_input, speed, dt_ms, shape, filter) == scaled_axis(
            movement_input.y as int,
            movement_input.x as int,
            speed,
            dt_ms,
        ),
{
}

} // verus!
