use vstd::prelude::*;
use crate::geometry::{
    Vec2, Position, Velocity, vadd, scale, is_normal, within, push, push_spec, lemma_mul_bounded,
    PUSH_REACH,
};

verus! {

/// Largest half-extent of a shape.
pub const EXTENT_LIMIT: i64 = 1_152_921_504_606_846_976;

/// Largest position component of an obstacle.
pub const PLACE_LIMIT: i64 = 1_152_921_504_606_846_976;

/// Largest position component for which a sweep is tested against the
/// obstacles' boxes before the exact query.
pub const SWEEP_POS_LIMIT: i64 = 4_611_686_018_427_387_904;

/// Largest speed component for which a sweep is tested against the boxes.
pub const SWEEP_SPEED_LIMIT: i64 = 16_777_216;

/// Longest interval for which a sweep is tested against the boxes.
pub const SWEEP_TIME_LIMIT: u64 = 4_294_967_296;

/// The two kinds of collidable geometry.
#[derive(Clone, Copy, Debug, PartialEq, Eq, Structural)]
pub enum Shape {
    Ball { radius: i64 },
    /// An axis-aligned rectangle, given by half its width and half its height.
    Cuboid { half_w: i64, half_h: i64 },
}

/// Half the width and half the height of the shape's bounding box.
pub open spec fn half_extents(s: Shape) -> (int, int) {
    match s {
        Shape::Ball { radius } => (radius as int, radius as int),
        Shape::Cuboid { half_w, half_h } => (half_w as int, half_h as int),
    }
}

/// Non-negative extents, within range.
pub open spec fn shape_valid(s: Shape) -> bool {
    let h = half_extents(s);
    0 <= h.0 <= EXTENT_LIMIT && 0 <= h.1 <= EXTENT_LIMIT
}

/// An axis-aligned box `(mins, maxs)`.
pub open spec fn box_around(center: (int, int), half: (int, int)) -> ((int, int), (int, int)) {
    ((center.0 - half.0, center.1 - half.1), (center.0 + half.0, center.1 + half.1))
}

/// Two closed boxes share a point.
pub open spec fn overlaps(a: ((int, int), (int, int)), b: ((int, int), (int, int))) -> bool {
    a.0.0 <= b.1.0 && b.0.0 <= a.1.0 && a.0.1 <= b.1.1 && b.0.1 <= a.1.1
}

/// An axis-aligned bounding box.
#[derive(Clone, Copy, Debug, PartialEq, Eq, Structural)]
pub struct Aabb {
    pub mins: Vec2,
    pub maxs: Vec2,
}

impl View for Aabb {
    type V = ((int, int), (int, int));

    open spec fn view(&self) -> ((int, int), (int, int)) {
        (self.mins@, self.maxs@)
    }
}

/// The geometry an entity collides with.
#[derive(Clone, Copy, Debug, PartialEq, Eq, Structural)]
pub struct Collidable {
    pub shape: Shape,
}

impl Collidable {
    pub fn circle(r: i64) -> (c: Collidable)
        ensures
            c.shape == (Shape::Ball { radius: r }),
    {
        Collidable { shape: Shape::Ball { radius: r } }
    }

    /// A `w` by `h` rectangle centred on the entity's position.
    pub fn aa_rect(w: i64, h: i64) -> (c: Collidable)
        requires
            w >= 0,
            h >= 0,
        ensures
            c.shape == (Shape::Cuboid { half_w: (w / 2) as i64, half_h: (h / 2) as i64 }),
    {
        Collidable { shape: Shape::Cuboid { half_w: w / 2, half_h: h / 2 } }
    }

    /// Whether the extents are non-negative and within range.
    pub fn is_valid(&self) -> (r: bool)
        ensures
            r == shape_valid(self.shape),
    {
        match self.shape {
            Shape::Ball { radius } => 0 <= radius && radius <= EXTENT_LIMIT,
            Shape::Cuboid { half_w, half_h } => 0 <= half_w && half_w <= EXTENT_LIMIT && 0
                <= half_h && half_h <= EXTENT_LIMIT,
        }
    }

    fn half(&self) -> (r: Vec2)
        ensures
            r@ == half_extents(self.shape),
    {
        match self.shape {
            Shape::Ball { radius } => Vec2 { x: radius, y: radius },
            Shape::Cuboid { half_w, half_h } => Vec2 { x: half_w, y: half_h },
        }
    }

    /// The bounding box of the shape placed at `pos`.
    pub fn compute_aabb(&self, pos: &Position) -> (r: Aabb)
        requires
            shape_valid(self.shape),
            within(pos.p@, PLACE_LIMIT as int),
        ensures
            r@ == box_around(pos.p@, half_extents(self.shape)),
    {
        let h = self.half();
        Aabb {
            mins: Vec2 { x: pos.p.x - h.x, y: pos.p.y - h.y },
            maxs: Vec2 { x: pos.p.x + h.x, y: pos.p.y + h.y },
        }
    }
}

/// The box a shape covers while it moves from `pos` with velocity `vel`
/// for `t` nanoseconds: the bounding box of its start and end boxes.
pub open spec fn swept_box(s: Shape, pos: (int, int), vel: (int, int), t: int) -> (
    (int, int),
    (int, int),
) {
    let end = vadd(pos, scale(vel, t));
    let h = half_extents(s);
    let lo = (if pos.0 <= end.0 { pos.0 } else { end.0 }, if pos.1 <= end.1 { pos.1 } else { end.1 });
    let hi = (if pos.0 <= end.0 { end.0 } else { pos.0 }, if pos.1 <= end.1 { end.1 } else { pos.1 });
    ((lo.0 - h.0, lo.1 - h.1), (hi.0 + h.0, hi.1 + h.1))
}

/// A sweep whose box can be computed.
pub open spec fn sweep_fits(s: Shape, pos: (int, int), vel: (int, int), t: int) -> bool {
    &&& shape_valid(s)
    &&& within(pos, SWEEP_POS_LIMIT as int)
    &&& within(vel, SWEEP_SPEED_LIMIT as int)
    &&& 0 <= t <= SWEEP_TIME_LIMIT
}

/// The mover overlaps an obstacle already.
#[derive(Clone, Copy, Debug, PartialEq, Eq, Structural)]
pub struct Contact {
    /// Where the two shapes touch.
    pub pos: Vec2,
    /// Direction in which the mover leaves the obstacle, held at
    /// `NORMAL_SCALE` (any direction, not only along an axis).
    pub norm: Vec2,
    /// How far the mover has to go along `norm` to just touch.
    pub dist: i64,
}

impl Contact {
    /// The minimum translation that separates the two shapes.
    pub fn mtv(&self) -> (r: Vec2)
        requires
            is_normal(self.norm@),
            0 <= self.dist <= PUSH_REACH,
        ensures
            r@ == push_spec(self.norm@, self.dist as int),
    {
        push(self.norm, self.dist)
    }
}

/// The mover first touches an obstacle after `toi_ns` nanoseconds.
#[derive(Clone, Copy, Debug, PartialEq, Eq, Structural)]
pub struct Toi {
    /// Direction in which the mover leaves the obstacle, held at `NORMAL_SCALE`.
    pub norm: Vec2,
    pub toi_ns: u64,
}

/// What a swept query reports for a mover over an interval.
#[derive(Clone, Copy, Debug, PartialEq, Eq, Structural)]
pub enum ToiResult {
    Contact(Contact),
    Miss,
    Toi(Toi),
}

/// What the exact time-of-impact solver reports for the nearest obstacle.
#[derive(Clone, Copy, Debug, PartialEq, Eq, Structural)]
pub struct Hit {
    /// Index of the obstacle in its [`StaticSet`].
    pub handle: usize,
    /// The solver converged on a time of impact.
    pub converged: bool,
    pub toi_ns: u64,
    /// Direction in which the mover leaves the obstacle at impact, held at
    /// `NORMAL_SCALE`.
    pub norm: Vec2,
    /// The overlap of the mover with that obstacle at the start, if any.
    pub contact: Option<Contact>,
}

/// A converged hit at a positive time is a time of impact; any other hit
/// is reported through the overlap at the start, and is a miss without one.
pub open spec fn hit_outcome(h: Hit) -> ToiResult {
    if h.converged && h.toi_ns > 0 {
        ToiResult::Toi(Toi { norm: h.norm, toi_ns: h.toi_ns })
    } else {
        match h.contact {
            Some(c) => ToiResult::Contact(c),
            None => ToiResult::Miss,
        }
    }
}

/// An outcome as the swept query may report it: a time of impact within
/// (0, `max`] along a normal, or a contact of non-negative depth along a
/// normal. Anything else is a failed solve, reported as a miss.
pub open spec fn settled(o: ToiResult, max: int) -> ToiResult {
    match o {
        ToiResult::Toi(t) => if is_normal(t.norm@) && 0 < t.toi_ns <= max {
            o
        } else {
            ToiResult::Miss
        },
        ToiResult::Contact(c) => if is_normal(c.norm@) && 0 <= c.dist {
            o
        } else {
            ToiResult::Miss
        },
        ToiResult::Miss => ToiResult::Miss,
    }
}

/// Keeps a well-formed outcome and turns any other into a miss (see [`settled`]).
pub fn settle(o: ToiResult, max: u64) -> (r: ToiResult)
    ensures
        r == settled(o, max as int),
{
    match o {
        ToiResult::Toi(t) => if t.norm.is_normal() && 0 < t.toi_ns && t.toi_ns <= max {
            o
        } else {
            ToiResult::Miss
        },
        ToiResult::Contact(c) => if c.norm.is_normal() && 0 <= c.dist {
            o
        } else {
            ToiResult::Miss
        },
        ToiResult::Miss => ToiResult::Miss,
    }
}

/// Turns what the solver found into a query outcome (see [`hit_outcome`]).
pub fn classify_hit(h: &Hit) -> (r: ToiResult)
    ensures
        r == hit_outcome(*h),
{
    if h.converged && h.toi_ns > 0 {
        ToiResult::Toi(Toi { norm: h.norm, toi_ns: h.toi_ns })
    } else {
        match h.contact {
            Some(c) => ToiResult::Contact(c),
            None => ToiResult::Miss,
        }
    }
}

/// A static obstacle: a shape at a place.
#[derive(Clone, Copy, Debug, PartialEq, Eq, Structural)]
pub struct Obstacle {
    pub col: Collidable,
    pub pos: Position,
}

/// Valid extents and a position within range.
pub open spec fn obstacle_fits(o: Obstacle) -> bool {
    shape_valid(o.col.shape) && within(o.pos.p@, PLACE_LIMIT as int)
}

pub open spec fn obstacle_box(o: Obstacle) -> ((int, int), (int, int)) {
    box_around(o.pos.p@, half_extents(o.col.shape))
}

/// The static obstacles, each known by the dense index it got when it was
/// inserted.
pub struct StaticSet {
    items: Vec<Obstacle>,
}

impl View for StaticSet {
    type V = Seq<Obstacle>;

    closed spec fn view(&self) -> Seq<Obstacle> {
        self.items@
    }
}

impl StaticSet {
    /// Every obstacle fits.
    pub open spec fn well_formed(&self) -> bool {
        forall|i: int| 0 <= i < self@.len() ==> obstacle_fits(#[trigger] self@[i])
    }

    /// Some obstacle's box shares a point with `area`.
    pub open spec fn touches_spec(&self, area: ((int, int), (int, int))) -> bool {
        exists|i: int| 0 <= i < self@.len() && overlaps(area, obstacle_box(#[trigger] self@[i]))
    }

    pub fn new() -> (r: StaticSet)
        ensures
            r@ == Seq::<Obstacle>::empty(),
            r.well_formed(),
    {
        StaticSet { items: Vec::new() }
    }

    pub fn len(&self) -> (r: usize)
        ensures
            r == self@.len(),
    {
        self.items.len()
    }

    /// Adds an obstacle and returns its index, or `None`, leaving the set as
    /// it was, when its geometry is degenerate or out of range.
    pub fn insert(&mut self, col: Collidable, pos: Position) -> (r: Option<usize>)
        requires
            old(self).well_formed(),
        ensures
            final(self).well_formed(),
            obstacle_fits(Obstacle { col, pos }) ==> {
                &&& r == Some(old(self)@.len() as usize)
                &&& final(self)@ == old(self)@.push(Obstacle { col, pos })
            },
            !obstacle_fits(Obstacle { col, pos }) ==> r.is_none() && final(self)@ == old(self)@,
    {
        if !col.is_valid() || !pos.p.is_within(PLACE_LIMIT) {
            return None;
        }
        let handle = self.items.len();
        self.items.push(Obstacle { col, pos });
        proof {
            assert forall|i: int| 0 <= i < self@.len() implies obstacle_fits(#[trigger] self@[i]) by {
                if i < old(self)@.len() {
                    assert(self@[i] == old(self)@[i]);
                }
            }
        }
        Some(handle)
    }

    /// The obstacle with index `handle`, if there is one.
    pub fn get(&self, handle: usize) -> (r: Option<Obstacle>)
        ensures
            handle < self@.len() ==> r == Some(self@[handle as int]),
            handle >= self@.len() ==> r.is_none(),
    {
        if handle < self.items.len() {
            Some(self.items[handle])
        } else {
            None
        }
    }

    /// Each obstacle's index with its bounding box, in index order: what a
    /// spatial index over the set is built from.
    pub fn entries(&self) -> (r: Vec<(usize, Aabb)>)
        requires
            self.well_formed(),
        ensures
            r@.len() == self@.len(),
            forall|i: int| 0 <= i < r@.len() ==> (#[trigger] r@[i]).0 == i && r@[i].1@ == obstacle_box(self@[i]),
    {
        let mut r: Vec<(usize, Aabb)> = Vec::new();
        let mut i: usize = 0;
        while i < self.items.len()
            invariant
                self.well_formed(),
                i <= self@.len(),
                r@.len() == i,
                forall|k: int| 0 <= k < i ==> (#[trigger] r@[k]).0 == k && r@[k].1@ == obstacle_box(self@[k]),
            decreases self@.len() - i,
        {
            let o = &self.items[i];
            proof {
                assert(obstacle_fits(self@[i as int]));
            }
            r.push((i, o.col.compute_aabb(&o.pos)));
            i = i + 1;
        }
        r
    }

    /// Whether some obstacle's bounding box shares a point with `area`.
    pub fn touches(&self, area: &Aabb) -> (r: bool)
        requires
            self.well_formed(),
        ensures
            r == self.touches_spec(area@),
    {
        let mut i: usize = 0;
        while i < self.items.len()
            invariant
                self.well_formed(),
                i <= self@.len(),
                forall|k: int| 0 <= k < i ==> !overlaps(area@, obstacle_box(#[trigger] self@[k])),
            decreases self@.len() - i,
        {
            let o = &self.items[i];
            proof {
                assert(obstacle_fits(self@[i as int]));
            }
            let b = o.col.compute_aabb(&o.pos);
            if area.mins.x <= b.maxs.x && b.mins.x <= area.maxs.x && area.mins.y <= b.maxs.y
                && b.mins.y <= area.maxs.y {
                return true;
            }
            i = i + 1;
        }
        false
    }
}

/// The bounding box of a sweep (see [`swept_box`]).
pub fn swept_aabb(col: &Collidable, pos: Position, vel: Velocity, t: u64) -> (r: Aabb)
    requires
        sweep_fits(col.shape, pos.p@, vel.v@, t as int),
    ensures
        r@ == swept_box(col.shape, pos.p@, vel.v@, t as int),
{
    proof {
        lemma_mul_bounded(vel.v.x as int, t as int, SWEEP_SPEED_LIMIT as int, SWEEP_TIME_LIMIT as int);
        lemma_mul_bounded(vel.v.y as int, t as int, SWEEP_SPEED_LIMIT as int, SWEEP_TIME_LIMIT as int);
    }
    let t = t as i64;
    let ex = pos.p.x + vel.v.x * t;
    let ey = pos.p.y + vel.v.y * t;
    let h = col.half();
    let (lx, hx) = if pos.p.x <= ex {
        (pos.p.x, ex)
    } else {
        (ex, pos.p.x)
    };
    let (ly, hy) = if pos.p.y <= ey {
        (pos.p.y, ey)
    } else {
        (ey, pos.p.y)
    };
    Aabb { mins: Vec2 { x: lx - h.x, y: ly - h.y }, maxs: Vec2 { x: hx + h.x, y: hy + h.y } }
}

/// The swept query: how the mover with shape `col`, at `pos` and moving
/// with `vel`, first meets the static obstacles within `max_toi_ns`.
///
/// When the box the sweep covers touches no obstacle's box, nothing can be
/// met and the answer is a miss. Otherwise `narrow`, the exact solver over
/// the obstacles, finds the nearest hit, which [`classify_hit`] turns into
/// the outcome; no hit, or a failed solve (see [`settled`]), is a miss.
///
/// The box test scans every obstacle, so its cost grows with the number of
/// obstacles; it spares the exact solver only when the sweep is clear of
/// them all.
pub fn toi<F: Fn(Position, Velocity, u64) -> Option<Hit>>(
    statics: &StaticSet,
    col: &Collidable,
    pos: Position,
    vel: Velocity,
    max_toi_ns: u64,
    narrow: F,
) -> (r: ToiResult)
    requires
        statics.well_formed(),
        forall|p: Position, v: Velocity, t: u64| narrow.requires((p, v, t)),
    ensures
        sweep_fits(col.shape, pos.p@, vel.v@, max_toi_ns as int) && !statics.touches_spec(
            swept_box(col.shape, pos.p@, vel.v@, max_toi_ns as int),
        ) ==> r == ToiResult::Miss,
        !(sweep_fits(col.shape, pos.p@, vel.v@, max_toi_ns as int) && !statics.touches_spec(
            swept_box(col.shape, pos.p@, vel.v@, max_toi_ns as int),
        )) ==> exists|h: Option<Hit>|
            #[trigger] narrow.ensures((pos, vel, max_toi_ns), h) && r == match h {
                None => ToiResult::Miss,
                Some(h) => settled(hit_outcome(h), max_toi_ns as int),
            },
        match r {
            ToiResult::Toi(t) => is_normal(t.norm@) && 0 < t.toi_ns <= max_toi_ns,
            ToiResult::Contact(c) => is_normal(c.norm@) && 0 <= c.dist,
            ToiResult::Miss => true,
        },
{
    if col.is_valid() && pos.p.is_within(SWEEP_POS_LIMIT) && vel.v.is_within(SWEEP_SPEED_LIMIT)
        && max_toi_ns <= SWEEP_TIME_LIMIT {
        let area = swept_aabb(col, pos, vel, max_toi_ns);
        if !statics.touches(&area) {
            return ToiResult::Miss;
        }
    }
    let found = narrow(pos, vel, max_toi_ns);
    match found {
        None => ToiResult::Miss,
        Some(h) => settle(classify_hit(&h), max_toi_ns),
    }
}

} // verus!
