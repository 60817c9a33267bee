//! The spatial collision index.
//!
//! Once per simulation tick the caller captures every collidable entity as a
//! [`Collidable`] record and hands the whole batch to [`CollisionIndex::refresh`],
//! which replaces the previous snapshot. Queries against the index are
//! read-only and deterministic: they walk the snapshot in its given order and
//! return the first record whose shape, placed at its recorded position,
//! overlaps the candidate shape — at rest for [`CollisionIndex::query_static`],
//! swept along a displacement for [`CollisionIndex::query_moving`].
//!
//! An optional [`CollisionFilter`] narrows a query: a record owned by the
//! filter's excluded entity never counts (no self-collision), and a record
//! counts only when its layer flags intersect the filter's flags bitwise.

use vstd::prelude::*;

verus! {

use crate::geometry::CollisionShape;
use crate::geometry::Vec2i;
use crate::geometry::overlaps;
use crate::geometry::sweep_overlaps;

/// Narrows a query: records owned by `exclude_entity` are skipped, and a
/// record counts only when `flags & record.flags != 0`.
#[derive(Clone, Copy, Debug, PartialEq, Eq, Structural)]
pub struct CollisionFilter {
    pub exclude_entity: u64,
    pub flags: u32,
}

/// One snapshot record: a collidable entity, its position at the start of
/// the tick, its shape, and the layer flags it participates in.
#[derive(Clone, Copy, Debug, PartialEq, Eq, Structural)]
pub struct Collidable {
    pub entity: u64,
    pub position: Vec2i,
    pub shape: CollisionShape,
    pub flags: u32,
}

/// Does the record pass the (optional) filter? Without a filter every
/// record passes; with one, the record must not belong to the excluded
/// entity and must share at least one layer flag with the filter.
pub open spec fn passes_filter(c: Collidable, filter: Option<CollisionFilter>) -> bool {
    match filter {
        Option::None => true,
        Option::Some(f) => c.entity != f.exclude_entity && (c.flags & f.flags) != 0,
    }
}

/// The candidate shape at `pos` hits record `c`: the record passes the
/// filter and the shapes overlap at rest.
pub open spec fn static_hit(
    c: Collidable,
    pos: Vec2i,
    shape: CollisionShape,
    filter: Option<CollisionFilter>,
) -> bool {
    passes_filter(c, filter) && overlaps(shape, pos, c.shape, c.position)
}

/// The candidate shape swept from `pos` along `(dx, dy)` hits record `c`:
/// the record passes the filter and the swept box overlaps the record's
/// shape.
pub open spec fn moving_hit(
    c: Collidable,
    pos: Vec2i,
    dx: int,
    dy: int,
    shape: CollisionShape,
    filter: Option<CollisionFilter>,
) -> bool {
    passes_filter(c, filter) && sweep_overlaps(shape, pos, dx, dy, c.shape, c.position)
}

/// The entity of the first record at index `i` or later that the candidate
/// shape at `pos` hits at rest, in snapshot order; `None` if none does.
pub open spec fn first_static_hit_from(
    s: Seq<Collidable>,
    i: int,
    pos: Vec2i,
    shape: CollisionShape,
    filter: Option<CollisionFilter>,
) -> Option<u64>
    decreases s.len() - i,
{
    if i < 0 || i >= s.len() {
        Option::None
    } else if static_hit(s[i], pos, shape, filter) {
        Option::Some(s[i].entity)
    } else {
        first_static_hit_from(s, i + 1, pos, shape, filter)
    }
}

/// The entity of the first record of the snapshot that the candidate shape
/// at `pos` hits at rest, in snapshot order; `None` if none does.
pub open spec fn first_static_hit(
    s: Seq<Collidable>,
    pos: Vec2i,
    shape: CollisionShape,
    filter: Option<CollisionFilter>,
) -> Option<u64> {
    first_static_hit_from(s, 0, pos, shape, filter)
}

/// The entity of the first record at index `i` or later that the candidate
/// shape swept from `pos` along `(dx, dy)` hits, in snapshot order; `None`
/// if none does.
pub open spec fn first_moving_hit_from(
    s: Seq<Collidable>,
    i: int,
    pos: Vec2i,
    dx: int,
    dy: int,
    shape: CollisionShape,
    filter: Option<CollisionFilter>,
) -> Option<u64>
    decreases s.len() - i,
{
    if i < 0 || i >= s.len() {
        Option::None
    } else if moving_hit(s[i], pos, dx, dy, shape, filter) {
        Option::Some(s[i].entity)
    } else {
        first_moving_hit_from(s, i + 1, pos, dx, dy, shape, filter)
    }
}

/// The entity of the first record of the snapshot that the candidate shape
/// swept from `pos` along `(dx, dy)` hits, in snapshot order; `None` if
/// none does.
pub open spec fn first_moving_hit(
    s: Seq<Collidable>,
    pos: Vec2i,
    dx: int,
    dy: int,
    shape: CollisionShape,
    filter: Option<CollisionFilter>,
) -> Option<u64> {
    first_moving_hit_from(s, 0, pos, dx, dy, shape, filter)
}

/// The spatial collision index: a tick-scoped snapshot of collidable
/// records, queried in order. Its view is the snapshot sequence, which is
/// the whole of its state: queries are functions of the view alone.
pub struct CollisionIndex {
    records: Vec<Collidable>,
}

impl View for CollisionIndex {
    type V = Seq<Collidable>;

    closed spec fn view(&self) -> Seq<Collidable> {
        self.records@
    }
}

fn static_hit_exec(
    c: &Collidable,
    pos: Vec2i,
    shape: CollisionShape,
    filter: Option<CollisionFilter>,
) -> (b: bool)
    ensures
        b == static_hit(*c, pos, shape, filter),
{
    let passes = match filter {
        Option::None => true,
        Option::Some(f) => c.entity != f.exclude_entity && (c.flags & f.flags) != 0,
    };
    passes && crate::geometry::overlaps_at(shape, pos, c.shape, c.position)
}

fn moving_hit_exec(
    c: &Collidable,
    pos: Vec2i,
    disp: Vec2i,
    shape: CollisionShape,
    filter: Option<CollisionFilter>,
) -> (b: bool)
    ensures
        b == moving_hit(*c, pos, disp.x as int, disp.y as int, shape, filter),
{
    let passes = match filter {
        Option::None => true,
        Option::Some(f) => c.entity != f.exclude_entity && (c.flags & f.flags) != 0,
    };
    passes && crate::geometry::sweep_overlaps_at(shape, pos, disp, c.shape, c.position)
}

impl CollisionIndex {
    /// An index with an empty snapshot: every query misses until the first
    /// refresh.
    pub fn new() -> (index: CollisionIndex)
        ensures
            index@ == Seq::<Collidable>::empty(),
    {
        let index = CollisionIndex { records: Vec::new() };
        proof {
            assert(index@ =~= Seq::<Collidable>::empty());
        }
        index
    }

    /// Replaces the snapshot with the given records. The previous snapshot
    /// is discarded entirely; afterwards the index's state is exactly the
    /// new sequence, so equal inputs always produce equal query results.
    pub fn refresh(&mut self, records: Vec<Collidable>)
        ensures
            final(self)@ == records@,
    {
        self.records = records;
    }

    /// Returns the first record of the snapshot, in snapshot order, whose
    /// shape at its recorded position overlaps `shape` placed at `pos` and
    /// which passes `filter`; `None` when nothing matching overlaps.
    pub fn query_static(
        &self,
        pos: Vec2i,
        shape: CollisionShape,
        filter: Option<CollisionFilter>,
    ) -> (r: Option<u64>)
        ensures
            r == first_static_hit(self@, pos, shape, filter),
    {
        let n: usize = self.records.len();
        let mut i: usize = 0;
        while i < n
            invariant
                i <= n,
                n == self.records.len(),
                first_static_hit(self@, pos, shape, filter) == first_static_hit_from(
                    self@,
                    i as int,
                    pos,
                    shape,
                    filter,
                ),
            decreases n - i,
        {
            let c: Collidable = self.records[i];
            if static_hit_exec(&c, pos, shape, filter) {
                return Option::Some(c.entity);
            }
            i = i + 1;
        }
        Option::None
    }

    /// Swept variant: returns the first record of the snapshot, in snapshot
    /// order, that `shape` overlaps anywhere while moving from `pos` to
    /// `pos + disp` and which passes `filter`; `None` when nothing matching
    /// is in the way. With a zero displacement this is the static query.
    pub fn query_moving(
        &self,
        pos: Vec2i,
        disp: Vec2i,
        shape: CollisionShape,
        filter: Option<CollisionFilter>,
    ) -> (r: Option<u64>)
        ensures
            r == first_moving_hit(self@, pos, disp.x as int, disp.y as int, shape, filter),
    {
        let n: usize = self.records.len();
        let mut i: usize = 0;
        while i < n
            invariant
                i <= n,
                n == self.records.len(),
                first_moving_hit(self@, pos, disp.x as int, disp.y as int, shape, filter)
                    == first_moving_hit_from(
                    self@,
                    i as int,
                    pos,
                    disp.x as int,
                    disp.y as int,
                    shape,
                    filter,
                ),
            decreases n - i,
        {
            let c: Collidable = self.records[i];
            if moving_hit_exec(&c, pos, disp, shape, filter) {
                return Option::Some(c.entity);
            }
            i = i + 1;
        }
        Option::None
    }
}

/// What a static query's answer means, spelled out: `None` says no record
/// of the snapshot is hit; `Some(e)` says some record is hit, belongs to
/// entity `e`, and no record before it in snapshot order is hit.
pub proof fn lemma_first_static_hit_characterization(
    s: Seq<Collidable>,
    pos: Vec2i,
    shape: CollisionShape,
    filter: Option<CollisionFilter>,
)
    ensures
        match first_static_hit(s, pos, shape, filter) {
            Option::None => forall|j: int|
                0 <= j < s.len() ==> !static_hit(#[trigger] s[j], pos, shape, filter),
            Option::Some(e) => exists|j: int|
                0 <= j < s.len() && static_hit(#[trigger] s[j], pos, shape, filter)
                    && s[j].entity == e && (forall|k: int|
                    0 <= k < j ==> !static_hit(#[trigger] s[k], pos, shape, filter)),
        },
{
    lemma_static_characterization_from(s, 0, pos, shape, filter);
}

proof fn lemma_static_characterization_from(
    s: Seq<Collidable>,
    i: int,
    pos: Vec2i,
    shape: CollisionShape,
    filter: Option<CollisionFilter>,
)
    requires
        0 <= i <= s.len(),
    ensures
        match first_static_hit_from(s, i, pos, shape, filter) {
            Option::None => forall|j: int|
                i <= j < s.len() ==> !static_hit(#[trigger] s[j], pos, shape, filter),
            Option::Some(e) => exists|j: int|
                i <= j < s.len() && static_hit(#[trigger] s[j], pos, shape, filter)
                    && s[j].entity == e && (forall|k: int|
                    i <= k < j ==> !static_hit(#[trigger] s[k], pos, shape, filter)),
        },
    decreases s.len() - i,
{
    if i < s.len() && !static_hit(s[i], pos, shape, filter) {
        lemma_static_characterization_from(s, i + 1, pos, shape, filter);
        match first_static_hit_from(s, i + 1, pos, shape, filter) {
            Option::None => {
            },
            Option::Some(e) => {
                let j = choose|j: int|
                    i + 1 <= j < s.len() && static_hit(#[trigger] s[j], pos, shape, filter)
                        && s[j].entity == e && (forall|k: int|
                        i + 1 <= k < j ==> !static_hit(#[trigger] s[k], pos, shape, filter));
                assert(i <= j < s.len() && static_hit(s[j], pos, shape, filter) && s[j].entity == e
                    && (forall|k: int|
                    i <= k < j ==> !static_hit(#[trigger] s[k], pos, shape, filter)));
            },
        }
    }
}

/// What a moving query's answer means, spelled out: `None` says the swept
/// shape hits no record of the snapshot; `Some(e)` says it hits some record
/// of entity `e` and no record before it in snapshot order.
pub proof fn lemma_first_moving_hit_characterization(
    s: Seq<Collidable>,
    pos: Vec2i,
    dx: int,
    dy: int,
    shape: CollisionShape,
    filter: Option<CollisionFilter>,
)
    ensures
        match first_moving_hit(s, pos, dx, dy, shape, filter) {
            Option::None => forall|j: int|
                0 <= j < s.len() ==> !moving_hit(#[trigger] s[j], pos, dx, dy, shape, filter),
            Option::Some(e) => exists|j: int|
                0 <= j < s.len() && moving_hit(#[trigger] s[j], pos, dx, dy, shape, filter)
                    && s[j].entity == e && (forall|k: int|
                    0 <= k < j ==> !moving_hit(#[trigger] s[k], pos, dx, dy, shape, filter)),
        },
{
    lemma_moving_characterization_from(s, 0, pos, dx, dy, shape, filter);
}

proof fn lemma_moving_characterization_from(
    s: Seq<Collidable>,
    i: int,
    pos: Vec2i,
    dx: int,
    dy: int,
    shape: CollisionShape,
    filter: Option<CollisionFilter>,
)
    requires
        0 <= i <= s.len(),
    ensures
        match first_moving_hit_from(s, i, pos, dx, dy, shape, filter) {
            Option::None => forall|j: int|
                i <= j < s.len() ==> !moving_hit(#[trigger] s[j], pos, dx, dy, shape, filter),
            Option::Some(e) => exists|j: int|
                i <= j < s.len() && moving_hit(#[trigger] s[j], pos, dx, dy, shape, filter)
                    && s[j].entity == e && (forall|k: int|
                    i <= k < j ==> !moving_hit(#[trigger] s[k], pos, dx, dy, shape, filter)),
        },
    decreases s.len() - i,
{
    if i < s.len() && !moving_hit(s[i], pos, dx, dy, shape, filter) {
        lemma_moving_characterization_from(s, i + 1, pos, dx, dy, shape, filter);
        match first_moving_hit_from(s, i + 1, pos, dx, dy, shape, filter) {
            Option::None => {
            },
            Option::Some(e) => {
                let j = choose|j: int|
                    i + 1 <= j < s.len() && moving_hit(#[trigger] s[j], pos, dx, dy, shape, filter)
                        && s[j].entity == e && (forall|k: int|
                        i + 1 <= k < j ==> !moving_hit(
                            #[trigger] s[k],
                            pos,
                            dx,
                            dy,
                            shape,
                            filter,
                        ));
                assert(i <= j < s.len() && moving_hit(s[j], pos, dx, dy, shape, filter)
                    && s[j].entity == e && (forall|k: int|
                    i <= k < j ==> !moving_hit(#[trigger] s[k], pos, dx, dy, shape, filter)));
            },
        }
    }
}

/// A filtered query never reports the filter's excluded entity, whatever
/// the positions and shapes: self-collision is impossible.
pub proof fn lemma_query_honors_exclusion(
    s: Seq<Collidable>,
    pos: Vec2i,
    dx: int,
    dy: int,
    shape: CollisionShape,
    f: CollisionFilter,
)
    ensures
        first_static_hit(s, pos, shape, Option::Some(f)) != Option::Some(f.exclude_entity),
        first_moving_hit(s, pos, dx, dy, shape, Option::Some(f)) != Option::Some(
            f.exclude_entity,
        ),
{
    lemma_static_exclusion_from(s, 0, pos, shape, f);
    lemma_moving_exclusion_from(s, 0, pos, dx, dy, shape, f);
}

proof fn lemma_static_exclusion_from(
    s: Seq<Collidable>,
    i: int,
    pos: Vec2i,
    shape: CollisionShape,
    f: CollisionFilter,
)
    ensures
        first_static_hit_from(s, i, pos, shape, Option::Some(f)) != Option::Some(
            f.exclude_entity,
        ),
    decreases s.len() - i,
{
    if 0 <= i < s.len() && !static_hit(s[i], pos, shape, Option::Some(f)) {
        lemma_static_exclusion_from(s, i + 1, pos, shape, f);
    }
}

proof fn lemma_moving_exclusion_from(
    s: Seq<Collidable>,
    i: int,
    pos: Vec2i,
    dx: int,
    dy: int,
    shape: CollisionShape,
    f: CollisionFilter,
)
    ensures
        first_moving_hit_from(s, i, pos, dx, dy, shape, Option::Some(f)) != Option::Some(
            f.exclude_entity,
        ),
    decreases s.len() - i,
{
    if 0 <= i < s.len() && !moving_hit(s[i], pos, dx, dy, shape, Option::Some(f)) {
        lemma_moving_exclusion_from(s, i + 1, pos, dx, dy, shape, f);
    }
}

/// A filtered query reports no record whose layer flags are disjoint from
/// the filter's flags; with a snapshot of only such records it reports
/// nothing at all, even for shapes at identical positions.
pub proof fn lemma_query_honors_flags(
    s: Seq<Collidable>,
    pos: Vec2i,
    dx: int,
    dy: int,
    shape: CollisionShape,
    f: CollisionFilter,
)
    requires
        forall|j: int| 0 <= j < s.len() ==> ((#[trigger] s[j]).flags & f.flags) == 0,
    ensures
        first_static_hit(s, pos, shape, Option::Some(f)) == Option::None::<u64>,
        first_moving_hit(s, pos, dx, dy, shape, Option::Some(f)) == Option::None::<u64>,
{
    lemma_static_flags_from(s, 0, pos, shape, f);
    lemma_moving_flags_from(s, 0, pos, dx, dy, shape, f);
}

proof fn lemma_static_flags_from(
    s: Seq<Collidable>,
    i: int,
    pos: Vec2i,
    shape: CollisionShape,
    f: CollisionFilter,
)
    requires
        forall|j: int| 0 <= j < s.len() ==> ((#[trigger] s[j]).flags & f.flags) == 0,
    ensures
        first_static_hit_from(s, i, pos, shape, Option::Some(f)) == Option::None::<u64>,
    decreases s.len() - i,
{
    if 0 <= i < s.len() {
        assert(!passes_filter(s[i], Option::Some(f)));
        lemma_static_flags_from(s, i + 1, pos, shape, f);
    }
}

proof fn lemma_moving_flags_from(
    s: Seq<Collidable>,
    i: int,
    pos: Vec2i,
    dx: int,
    dy: int,
    shape: CollisionShape,
    f: CollisionFilter,
)
    requires
        forall|j: int| 0 <= j < s.len() ==> ((#[trigger] s[j]).flags & f.flags) == 0,
    ensures
        first_moving_hit_from(s, i, pos, dx, dy, shape, Option::Some(f)) == Option::None::<u64>,
    decreases s.len() - i,
{
    if 0 <= i < s.len() {
        assert(!passes_filter(s[i], Option::Some(f)));
        lemma_moving_flags_from(s, i + 1, pos, dx, dy, shape, f);
    }
}

/// Queries are functions of the snapshot alone: two indexes refreshed with
/// equal record sequences answer every query identically, so refreshing
/// twice with the same input leaks no hidden state between refreshes.
pub proof fn lemma_queries_deterministic(
    a: Seq<Collidable>,
    b: Seq<Collidable>,
    pos: Vec2i,
    dx: int,
    dy: int,
    shape: CollisionShape,
    filter: Option<CollisionFilter>,
)
    requires
        a == b,
    ensures
        first_static_hit(a, pos, shape, filter) == first_static_hit(b, pos, shape, filter),
        first_moving_hit(a, pos, dx, dy, shape, filter) == first_moving_hit(
            b,
            pos,
            dx,
            dy,
            shape,
            filter,
        ),
{
}

} // verus!
