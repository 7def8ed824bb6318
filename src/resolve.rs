use vstd::prelude::*;
use crate::collide::{Contact, ToiResult};
use crate::geometry::{
    Vec2, Position, Velocity, dot, vadd, scale, is_normal, within, near, vmax, reflect_spec,
    slide_spec, push_spec, reflect, slide, push, plus, lemma_push, lemma_mul_bounded,
    NORMAL_SCALE,
};
use vstd::arithmetic::power2::{pow2, lemma2_to64};

verus! {

/// Most sweep queries one mover makes in one tick.
pub const MAX_ITERATIONS: u32 = 8;

/// Largest speed component at the start of a tick (sub-units per nanosecond).
pub const SPEED_LIMIT: i64 = 1_048_576;

/// Largest speed component a single step accepts; responses may round a
/// velocity up a little, so within a tick it may exceed `SPEED_LIMIT`.
pub const VEL_LIMIT: i64 = 536_870_912;

/// Longest tick the resolver accepts, in nanoseconds.
pub const TICK_LIMIT: u64 = 1_073_741_824;

/// Longest push out of an overlap; a deeper overlap is pushed this far.
pub const PUSH_LIMIT: i64 = 1_099_511_627_776;

/// Bound on how far one push moves a mover, per component.
pub const PUSH_STEP: i64 = 2_201_170_739_201;

/// Largest separation margin the resolver accepts.
pub const MARGIN_LIMIT: i64 = 1_073_741_824;

/// Largest position component at the start of a tick.
pub const POS_LIMIT: i64 = 1_152_921_504_606_846_976;

/// Largest position component a single step accepts.
pub const REACH_LIMIT: i64 = 4_611_686_018_427_387_904;

/// Impacts a fresh projectile survives.
pub const SHOT_BOUNCES: u8 = 3;

/// Separation margin for projectiles, in sub-units.
pub const SHOT_MARGIN: i64 = 122_070;

/// Separation margin for the player, in sub-units.
pub const PLAYER_MARGIN: i64 = 976_562;

/// How a mover's velocity answers an impact with a wall.
#[derive(Clone, Copy, Debug, PartialEq, Eq, Structural)]
pub enum Response {
    /// Keep the tangential part of the velocity and slide along the wall.
    Slide,
    /// Mirror the velocity; `bounces` more impacts are survived, the next
    /// one destroys the mover.
    Reflect { bounces: u8 },
}

/// The outcome is an impact the resolver acts on: a contact with a normal
/// and a depth that is not negative, or a time of impact with a normal
/// within the remaining time. Anything else counts as a failed query, that
/// is a miss.
pub open spec fn is_impact(o: ToiResult, remaining: int) -> bool {
    match o {
        ToiResult::Miss => false,
        ToiResult::Contact(c) => is_normal(c.norm@) && 0 <= c.dist,
        ToiResult::Toi(t) => is_normal(t.norm@) && t.toi_ns <= remaining,
    }
}

pub open spec fn impact_normal(o: ToiResult) -> (int, int) {
    match o {
        ToiResult::Contact(c) => c.norm@,
        ToiResult::Toi(t) => t.norm@,
        ToiResult::Miss => (0, 0),
    }
}

/// How much time the mover travels before the outcome is acted on.
pub open spec fn travel_time(o: ToiResult, remaining: int) -> int {
    if !is_impact(o, remaining) {
        remaining
    } else {
        match o {
            ToiResult::Toi(t) => t.toi_ns as int,
            _ => 0,
        }
    }
}

/// How far the mover is pushed along the normal after an impact: out of
/// the overlap and then `margin` further. A time of impact of zero is a
/// touching contact of depth zero.
pub open spec fn push_len(o: ToiResult, margin: int) -> int {
    match o {
        ToiResult::Contact(c) => (if c.dist <= PUSH_LIMIT {
            c.dist as int
        } else {
            PUSH_LIMIT as int
        }) + margin,
        _ => margin,
    }
}

/// The response that remains after one more impact, or `None` when the
/// impact destroys the mover.
pub open spec fn after_impact(r: Response) -> Option<Response> {
    match r {
        Response::Slide => Some(Response::Slide),
        Response::Reflect { bounces } => if bounces == 0 {
            None
        } else {
            Some(Response::Reflect { bounces: (bounces - 1) as u8 })
        },
    }
}

/// The response that remains after `k` impacts, or `None` once one of them
/// destroyed the mover.
pub open spec fn after_impacts(r: Response, k: nat) -> Option<Response>
    decreases k,
{
    if k == 0 {
        Some(r)
    } else {
        match after_impacts(r, (k - 1) as nat) {
            None => None,
            Some(r2) => after_impact(r2),
        }
    }
}

/// A projectile with a budget of `b` bounces survives its first `b` impacts,
/// with one bounce fewer after each, and is destroyed by impact `b + 1`.
pub proof fn lemma_bounce_budget(b: u8, k: nat)
    ensures
        after_impacts(Response::Reflect { bounces: b }, k) == (if k <= b {
            Some(Response::Reflect { bounces: (b - k) as u8 })
        } else {
            None::<Response>
        }),
    decreases k,
{
    if k > 0 {
        lemma_bounce_budget(b, (k - 1) as nat);
    }
}

/// The velocity that an impact along normal `n` leaves.
pub open spec fn respond_spec(r: Response, v: (int, int), n: (int, int)) -> (int, int) {
    match r {
        Response::Slide => slide_spec(v, n),
        Response::Reflect { .. } => reflect_spec(v, n),
    }
}

/// A dynamic entity as the resolver sees it.
#[derive(Clone, Copy, Debug, PartialEq, Eq, Structural)]
pub struct Mover {
    pub pos: Position,
    pub vel: Velocity,
    pub response: Response,
}

/// Where a mover stands after acting on outcome `o`, unless it was destroyed.
pub open spec fn stepped_pos(m: Mover, o: ToiResult, remaining: int, margin: int) -> (int, int) {
    if is_impact(o, remaining) {
        vadd(
            vadd(m.pos.p@, scale(m.vel.v@, travel_time(o, remaining))),
            push_spec(impact_normal(o), push_len(o, margin)),
        )
    } else {
        vadd(m.pos.p@, scale(m.vel.v@, remaining))
    }
}

/// What one step of the resolver did.
#[derive(Clone, Copy, Debug, PartialEq, Eq, Structural)]
pub struct Step {
    /// Time of the tick spent in this step.
    pub consumed_ns: u64,
    /// The mover met an impact with no bounce left.
    pub destroyed: bool,
}

/// What one step does: acting on outcome `o` with `remaining` of the tick
/// left turns mover `m` into `m2` and reports `s`.
///
/// A miss (or a failed query) moves the mover by `velocity * remaining`. An
/// impact first moves it to the moment of impact, then pushes it along the
/// normal out of any overlap and `margin` further, and answers with the
/// mover's response; a projectile with no bounce left is destroyed instead and
/// left as it was.
pub open spec fn step_post(m: Mover, o: ToiResult, remaining: int, margin: int, m2: Mover, s: Step) -> bool {
    if !is_impact(o, remaining) {
        &&& !s.destroyed
        &&& s.consumed_ns == remaining
        &&& m2.pos.p@ == stepped_pos(m, o, remaining, margin)
        &&& m2.vel == m.vel
        &&& m2.response == m.response
    } else {
        match after_impact(m.response) {
            None => s.destroyed && s.consumed_ns == 0 && m2 == m,
            Some(next) => {
                &&& !s.destroyed
                &&& s.consumed_ns == travel_time(o, remaining)
                &&& m2.pos.p@ == stepped_pos(m, o, remaining, margin)
                &&& m2.vel.v@ == respond_spec(m.response, m.vel.v@, impact_normal(o))
                &&& m2.response == next
            },
        }
    }
}

/// Sum of a sequence of durations.
pub open spec fn seq_sum(s: Seq<u64>) -> int
    decreases s.len(),
{
    if s.len() == 0 {
        0
    } else {
        seq_sum(s.drop_last()) + s.last()
    }
}

proof fn lemma_seq_sum_push(s: Seq<u64>, x: u64)
    ensures
        seq_sum(s.push(x)) == seq_sum(s) + x,
{
    assert(s.push(x).drop_last() =~= s);
}

/// `p + v * t`.
fn travel(p: Vec2, v: Vec2, t: u64) -> (r: Vec2)
    requires
        within(p@, REACH_LIMIT as int),
        within(v@, VEL_LIMIT as int),
        t <= TICK_LIMIT,
    ensures
        r@ == vadd(p@, scale(v@, t as int)),
        near(r@, p@, VEL_LIMIT * t),
{
    proof {
        lemma_mul_bounded(v.x as int, t as int, VEL_LIMIT as int, t as int);
        lemma_mul_bounded(v.y as int, t as int, VEL_LIMIT as int, t as int);
        lemma_mul_bounded(VEL_LIMIT as int, t as int, VEL_LIMIT as int, TICK_LIMIT as int);
    }
    let t = t as i64;
    Vec2 { x: p.x + v.x * t, y: p.y + v.y * t }
}

/// Whether `o` is an impact to act on, with `remaining_ns` of the tick left.
pub fn impact_check(o: &ToiResult, remaining_ns: u64) -> (r: bool)
    ensures
        r == is_impact(*o, remaining_ns as int),
{
    match o {
        ToiResult::Miss => false,
        ToiResult::Contact(c) => c.norm.is_normal() && 0 <= c.dist,
        ToiResult::Toi(t) => t.norm.is_normal() && t.toi_ns <= remaining_ns,
    }
}

impl Mover {
    /// The player at `pos`, at rest, sliding along walls.
    pub fn player(pos: Position) -> (r: Mover)
        ensures
            r.pos == pos,
            r.vel.v@ == (0int, 0int),
            r.response == Response::Slide,
    {
        Mover { pos, vel: Velocity::new(0, 0), response: Response::Slide }
    }

    /// A fresh projectile at `pos` moving with `vel`, bouncing off walls.
    pub fn shot(pos: Position, vel: Velocity) -> (r: Mover)
        ensures
            r.pos == pos,
            r.vel == vel,
            r.response == (Response::Reflect { bounces: SHOT_BOUNCES }),
    {
        Mover { pos, vel, response: Response::Reflect { bounces: SHOT_BOUNCES } }
    }

    /// The state a mover may start a tick in.
    pub open spec fn fits(&self) -> bool {
        within(self.pos.p@, POS_LIMIT as int) && within(self.vel.v@, SPEED_LIMIT as int)
    }

    /// Whether the mover may start a tick: position and speed within range.
    pub fn within_limits(&self) -> (r: bool)
        ensures
            r == self.fits(),
    {
        self.pos.p.is_within(POS_LIMIT) && self.vel.v.is_within(SPEED_LIMIT)
    }

    /// Acts on the outcome `o` of a swept query over the `remaining_ns`
    /// nanoseconds left of the tick.
    ///
    /// A miss moves the mover by `velocity * remaining_ns`. An impact first
    /// moves it to the moment of impact, then pushes it along the normal out
    /// of any overlap and `margin` further, and answers with the mover's
    /// response; a projectile with no bounce left is destroyed instead and
    /// left where it was.
    pub fn step(&mut self, o: &ToiResult, remaining_ns: u64, margin: i64) -> (r: Step)
        requires
            within(old(self).pos.p@, REACH_LIMIT as int),
            vmax(old(self).vel.v@) <= VEL_LIMIT / 2,
            remaining_ns <= TICK_LIMIT,
            0 < margin <= MARGIN_LIMIT,
        ensures
            step_post(*old(self), *o, remaining_ns as int, margin as int, *final(self), r),
            r.consumed_ns <= remaining_ns,
            2 * vmax(final(self).vel.v@) <= 3 * vmax(old(self).vel.v@) + 4,
            near(final(self).pos.p@, old(self).pos.p@, VEL_LIMIT * r.consumed_ns + PUSH_STEP),
    {
        match o {
            ToiResult::Contact(c) => {
                if impact_check(o, remaining_ns) {
                    let depth = if c.dist <= PUSH_LIMIT {
                        c.dist
                    } else {
                        PUSH_LIMIT
                    };
                    return self.hit(c.norm, 0, depth + margin);
                }
            },
            ToiResult::Toi(h) => {
                if impact_check(o, remaining_ns) {
                    return self.hit(h.norm, h.toi_ns, margin);
                }
            },
            ToiResult::Miss => {},
        }
        self.pos.p = travel(self.pos.p, self.vel.v, remaining_ns);
        Step { consumed_ns: remaining_ns, destroyed: false }
    }

    /// Travels `t_ns`, is pushed `len` along `n`, and answers the impact.
    fn hit(&mut self, n: Vec2, t_ns: u64, len: i64) -> (r: Step)
        requires
            is_normal(n@),
            t_ns <= TICK_LIMIT,
            0 < len <= PUSH_LIMIT + MARGIN_LIMIT,
            within(old(self).pos.p@, REACH_LIMIT as int),
            vmax(old(self).vel.v@) <= VEL_LIMIT / 2,
        ensures
            match after_impact(old(self).response) {
                None => r.destroyed && r.consumed_ns == 0 && *final(self) == *old(self),
                Some(next) => {
                    &&& !r.destroyed
                    &&& r.consumed_ns == t_ns
                    &&& final(self).pos.p@ == vadd(
                        vadd(old(self).pos.p@, scale(old(self).vel.v@, t_ns as int)),
                        push_spec(n@, len as int),
                    )
                    &&& final(self).vel.v@ == respond_spec(old(self).response, old(self).vel.v@, n@)
                    &&& final(self).response == next
                },
            },
            2 * vmax(final(self).vel.v@) <= 3 * vmax(old(self).vel.v@) + 4,
            near(final(self).pos.p@, old(self).pos.p@, VEL_LIMIT * r.consumed_ns + PUSH_STEP),
    {
        let next = match self.response {
            Response::Slide => Response::Slide,
            Response::Reflect { bounces } => {
                if bounces == 0 {
                    return Step { consumed_ns: 0, destroyed: true };
                }
                Response::Reflect { bounces: bounces - 1 }
            },
        };
        let arrived = travel(self.pos.p, self.vel.v, t_ns);
        self.pos.p = plus(arrived, push(n, len));
        self.vel.v = match self.response {
            Response::Slide => slide(self.vel.v, n),
            Response::Reflect { .. } => reflect(self.vel.v, n),
        };
        self.response = next;
        Step { consumed_ns: t_ns, destroyed: false }
    }
}

/// A contact push clears the overlap: when the mover reaches at most
/// `c.dist` past the face `dot(x, n) == face` of an obstacle, whose inside
/// lies against the contact normal `n` (distances along `n` are measured at
/// `NORMAL_SCALE`), the step leaves it `margin` clear of that face, less two
/// sub-units of rounding.
pub proof fn lemma_contact_clears(m: Mover, c: Contact, remaining: int, margin: int, face: int)
    requires
        is_impact(ToiResult::Contact(c), remaining),
        c.dist <= PUSH_LIMIT,
        margin >= 0,
        dot(m.pos.p@, c.norm@) >= face - c.dist * NORMAL_SCALE,
    ensures
        dot(stepped_pos(m, ToiResult::Contact(c), remaining, margin), c.norm@) >= face + (margin - 2)
            * NORMAL_SCALE,
{
    let n = c.norm@;
    let p = m.pos.p@;
    let k = c.dist + margin;
    assert(scale(m.vel.v@, 0) == (0int, 0int));
    assert(vadd(p, scale(m.vel.v@, 0)) == p);
    lemma_push(n, k);
    let q = push_spec(n, k);
    assert(dot(vadd(p, q), n) == dot(p, n) + dot(q, n)) by (nonlinear_arith);
    assert(k * NORMAL_SCALE - 2 * NORMAL_SCALE == c.dist * NORMAL_SCALE + (margin - 2) * NORMAL_SCALE)
        by (nonlinear_arith)
        requires k == c.dist + margin;
}

/// A run of the resolver over one tick of `tick` with the given `margin`:
/// query `i` is made from mover `ms[i]` with the time left after the steps
/// before it, gets the answer `os[i]`, and step `i` turns `ms[i]` into
/// `ms[i + 1]`, spending `steps[i]`; only the last step may destroy the mover.
pub open spec fn resolve_trace<F: Fn(Position, Velocity, u64) -> ToiResult>(
    sweep: F,
    tick: int,
    margin: int,
    os: Seq<ToiResult>,
    ms: Seq<Mover>,
    steps: Seq<u64>,
    destroyed: bool,
) -> bool {
    &&& os.len() == steps.len()
    &&& ms.len() == steps.len() + 1
    &&& destroyed ==> steps.len() > 0
    &&& forall|i: int| 0 <= i < steps.len() ==> #[trigger] trace_step(sweep, tick, margin, os, ms, steps, destroyed, i)
}

/// Step `i` of a run (see [`resolve_trace`]).
pub open spec fn trace_step<F: Fn(Position, Velocity, u64) -> ToiResult>(
    sweep: F,
    tick: int,
    margin: int,
    os: Seq<ToiResult>,
    ms: Seq<Mover>,
    steps: Seq<u64>,
    destroyed: bool,
    i: int,
) -> bool {
    &&& tick - seq_sum(steps.take(i)) > 0
    &&& sweep.ensures((ms[i].pos, ms[i].vel, (tick - seq_sum(steps.take(i))) as u64), os[i])
    &&& step_post(
        ms[i],
        os[i],
        tick - seq_sum(steps.take(i)),
        margin,
        ms[i + 1],
        Step { consumed_ns: steps[i], destroyed: destroyed && i == steps.len() - 1 },
    )
}

/// What resolving one tick did to one mover.
pub struct TickReport {
    /// Time of the tick spent by each swept query, in order.
    pub steps: Vec<u64>,
    /// The mover met an impact with no bounce left and is to be removed.
    pub destroyed: bool,
}

/// Moves `mover` through one tick of `tick_ns` nanoseconds.
///
/// `sweep(position, velocity, interval)` is the swept query against the
/// static obstacles. It is asked again after each impact, with the time left,
/// until the tick is spent, the mover is destroyed, or `MAX_ITERATIONS`
/// queries were made; a mover at rest makes none. The time spent by the steps
/// adds up to at most the tick, and falls short of it only when the mover was
/// destroyed or the query budget ran out. Step by step, what each query was
/// handed, what it answered and what the step then did is a
/// [`resolve_trace`] from the mover as it was to the mover as it is left.
pub fn resolve_tick<F: Fn(Position, Velocity, u64) -> ToiResult>(
    mover: &mut Mover,
    tick_ns: u64,
    margin: i64,
    sweep: F,
) -> (r: TickReport)
    requires
        old(mover).fits(),
        tick_ns <= TICK_LIMIT,
        0 < margin <= MARGIN_LIMIT,
        forall|p: Position, v: Velocity, t: u64| sweep.requires((p, v, t)),
    ensures
        seq_sum(r.steps@) <= tick_ns,
        r.steps@.len() <= MAX_ITERATIONS,
        old(mover).vel.v@ == (0int, 0int) ==> {
            &&& r.steps@.len() == 0
            &&& !r.destroyed
            &&& *final(mover) == *old(mover)
        },
        old(mover).vel.v@ != (0int, 0int) ==> (seq_sum(r.steps@) == tick_ns || r.destroyed
            || r.steps@.len() == MAX_ITERATIONS),
        r.destroyed ==> final(mover).response == (Response::Reflect { bounces: 0 }),
        exists|os: Seq<ToiResult>, ms: Seq<Mover>|
            #[trigger] resolve_trace(sweep, tick_ns as int, margin as int, os, ms, r.steps@, r.destroyed)
            && ms[0] == *old(mover) && ms.last() == *final(mover),
        vmax(final(mover).vel.v@) <= VEL_LIMIT / 2,
        near(final(mover).pos.p@, old(mover).pos.p@, VEL_LIMIT * tick_ns + MAX_ITERATIONS * PUSH_STEP),
{
    let mut report = TickReport { steps: Vec::new(), destroyed: false };
    let ghost mut os: Seq<ToiResult> = Seq::empty();
    let ghost mut ms: Seq<Mover> = seq![*mover];
    if mover.vel.v.x == 0 && mover.vel.v.y == 0 {
        assert(resolve_trace(sweep, tick_ns as int, margin as int, os, ms, report.steps@, report.destroyed));
        return report;
    }
    let mut remaining: u64 = tick_ns;
    proof {
        lemma2_to64();
    }
    while remaining > 0 && report.steps.len() < MAX_ITERATIONS as usize && !report.destroyed
        invariant
            seq_sum(report.steps@) + remaining == tick_ns,
            remaining <= tick_ns,
            report.steps@.len() <= MAX_ITERATIONS,
            vmax(mover.vel.v@) <= SPEED_LIMIT * pow2(report.steps@.len()),
            within(old(mover).pos.p@, POS_LIMIT as int),
            near(
                mover.pos.p@,
                old(mover).pos.p@,
                VEL_LIMIT * seq_sum(report.steps@) + report.steps@.len() * PUSH_STEP,
            ),
            report.destroyed ==> mover.response == (Response::Reflect { bounces: 0 }),
            resolve_trace(sweep, tick_ns as int, margin as int, os, ms, report.steps@, report.destroyed),
            ms[0] == *old(mover),
            ms.last() == *mover,
            tick_ns <= TICK_LIMIT,
            0 < margin <= MARGIN_LIMIT,
            forall|p: Position, v: Velocity, t: u64| sweep.requires((p, v, t)),
        decreases MAX_ITERATIONS - report.steps@.len(),
    {
        proof {
            let k = report.steps@.len();
            lemma2_to64();
            assert(k == 0 || k == 1 || k == 2 || k == 3 || k == 4 || k == 5 || k == 6 || k == 7);
            assert(1 <= pow2(k) <= 128);
            assert(pow2(k + 1) == 2 * pow2(k));
        }
        let ghost before = *mover;
        let ghost old_steps = report.steps@;
        let ghost rem0 = remaining;
        let o = sweep(mover.pos, mover.vel, remaining);
        let s = mover.step(&o, remaining, margin);
        proof {
            lemma_seq_sum_push(report.steps@, s.consumed_ns);
        }
        remaining = remaining - s.consumed_ns;
        report.steps.push(s.consumed_ns);
        report.destroyed = s.destroyed;
        proof {
            let n = old_steps.len() as int;
            let new_steps = report.steps@;
            assert(new_steps.take(n) =~= old_steps);
            let os0 = os;
            let ms0 = ms;
            os = os.push(o);
            ms = ms.push(*mover);
            assert forall|i: int| 0 <= i < new_steps.len() implies #[trigger] trace_step(
                sweep, tick_ns as int, margin as int, os, ms, new_steps, report.destroyed, i,
            ) by {
                if i < n {
                    assert(trace_step(sweep, tick_ns as int, margin as int, os0, ms0, old_steps, false, i));
                    assert(new_steps.take(i) =~= old_steps.take(i));
                    assert(os[i] == os0[i]);
                    assert(ms[i] == ms0[i]);
                    assert(ms[i + 1] == ms0[i + 1]);
                    assert(new_steps[i] == old_steps[i]);
                } else {
                    assert(new_steps.take(i) =~= old_steps);
                    assert((tick_ns as int) - seq_sum(new_steps.take(i)) == rem0);
                    assert(ms[i] == before);
                    assert(os[i] == o);
                }
            }
            assert(os.len() == new_steps.len());
            assert(ms.len() == new_steps.len() + 1);
            assert(resolve_trace(sweep, tick_ns as int, margin as int, os, ms, new_steps, report.destroyed));
        }
    }
    proof {
        let k = report.steps@.len();
        lemma2_to64();
        assert(k == 0 || k == 1 || k == 2 || k == 3 || k == 4 || k == 5 || k == 6 || k == 7 || k == 8);
        assert(pow2(k) <= 256);
    }
    report
}

/// Impacts met by the first `k` steps of a run (see [`resolve_trace`]).
pub open spec fn impacts_in(os: Seq<ToiResult>, steps: Seq<u64>, tick: int, k: nat) -> nat
    decreases k,
{
    if k == 0 {
        0
    } else {
        impacts_in(os, steps, tick, (k - 1) as nat) + if is_impact(
            os[k - 1],
            tick - seq_sum(steps.take(k - 1)),
        ) {
            1nat
        } else {
            0nat
        }
    }
}

proof fn lemma_trace_prefix<F: Fn(Position, Velocity, u64) -> ToiResult>(
    sweep: F,
    tick: int,
    margin: int,
    os: Seq<ToiResult>,
    ms: Seq<Mover>,
    steps: Seq<u64>,
    destroyed: bool,
    k: nat,
)
    requires
        resolve_trace(sweep, tick, margin, os, ms, steps, destroyed),
        k <= steps.len(),
        !(destroyed && k == steps.len()),
    ensures
        after_impacts(ms[0].response, impacts_in(os, steps, tick, k)) == Some(ms[k as int].response),
    decreases k,
{
    if k > 0 {
        let i = k - 1;
        lemma_trace_prefix(sweep, tick, margin, os, ms, steps, destroyed, i as nat);
        assert(trace_step(sweep, tick, margin, os, ms, steps, destroyed, i));
    }
}

/// Along a run of the resolver, the response left after the impacts met is
/// the one the bounce budget gives for that many impacts; the run destroys
/// the mover exactly when that budget gives none.
pub proof fn lemma_trace_bounces<F: Fn(Position, Velocity, u64) -> ToiResult>(
    sweep: F,
    tick: int,
    margin: int,
    os: Seq<ToiResult>,
    ms: Seq<Mover>,
    steps: Seq<u64>,
    destroyed: bool,
)
    requires
        resolve_trace(sweep, tick, margin, os, ms, steps, destroyed),
    ensures
        !destroyed ==> after_impacts(ms[0].response, impacts_in(os, steps, tick, steps.len())) == Some(
            ms.last().response,
        ),
        destroyed ==> after_impacts(ms[0].response, impacts_in(os, steps, tick, steps.len())) == None::<Response>,
{
    if !destroyed {
        lemma_trace_prefix(sweep, tick, margin, os, ms, steps, destroyed, steps.len());
    } else {
        let i = steps.len() - 1;
        lemma_trace_prefix(sweep, tick, margin, os, ms, steps, destroyed, i as nat);
        assert(trace_step(sweep, tick, margin, os, ms, steps, destroyed, i));
    }
}

} // verus!
