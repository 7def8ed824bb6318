use shooter::collide::{toi, Collidable, Contact, Hit, StaticSet, Toi, ToiResult};
use shooter::geometry::{Position, Vec2, Velocity, NORMAL_SCALE};

const S: i64 = NORMAL_SCALE;
use shooter::resolve::{
    resolve_tick, impact_check, Mover, Response, MAX_ITERATIONS, PLAYER_MARGIN, PUSH_LIMIT,
    SHOT_BOUNCES, SHOT_MARGIN,
};

/// Sub-units in one world unit.
const UNIT: i64 = 1_000_000_000;
const SECOND: u64 = 1_000_000_000;

/// A wall spanning x in [5, 15] and y in [-5, 5].
fn wall() -> StaticSet {
    let mut s = StaticSet::new();
    s.insert(Collidable::aa_rect(10 * UNIT, 10 * UNIT), Position::new(10 * UNIT, 0));
    s
}

/// Exact query of a point against the wall's left face, for rightward motion.
fn left_face(p: Position, v: Velocity, max: u64) -> Option<Hit> {
    let n = Vec2::new(-S, 0);
    let left = 5 * UNIT;
    if v.v.x <= 0 || p.p.x > left || p.p.y.abs() > 5 * UNIT {
        return None;
    }
    let t = ((left - p.p.x) / v.v.x) as u64;
    if t > max {
        return None;
    }
    let contact = Some(Contact { pos: p.p, norm: n, dist: 0 });
    Some(Hit { handle: 0, converged: true, toi_ns: t, norm: n, contact })
}

fn mover(vx: i64, vy: i64, response: Response) -> Mover {
    Mover { pos: Position::new(0, 0), vel: Velocity::new(vx, vy), response }
}

#[test]
fn slide_into_the_left_face() {
    let statics = wall();
    let col = Collidable::circle(0);
    let mut m = mover(100, 0, Response::Slide);
    let r = resolve_tick(&mut m, SECOND, PLAYER_MARGIN, |p, v, t| toi(&statics, &col, p, v, t, left_face));
    assert_eq!(r.steps[0], 50_000_000);
    assert_eq!(r.steps.iter().sum::<u64>(), SECOND);
    assert!(!r.destroyed);
    assert_eq!(m.pos, Position::new(5 * UNIT - PLAYER_MARGIN, 0));
    assert_eq!(m.vel, Velocity::new(0, 0));
}

#[test]
fn slide_keeps_the_tangential_velocity() {
    let mut m = mover(100, 3, Response::Slide);
    let n = Vec2::new(-S, 0);
    let o = ToiResult::Toi(Toi { norm: n, toi_ns: 50_000_000 });
    let s = m.step(&o, SECOND, PLAYER_MARGIN);
    assert_eq!(s.consumed_ns, 50_000_000);
    assert_eq!(m.pos, Position::new(5 * UNIT - PLAYER_MARGIN, 150_000_000));
    assert_eq!(m.vel, Velocity::new(0, 3));
}

#[test]
fn spent_projectile_is_destroyed_at_impact() {
    let statics = wall();
    let col = Collidable::circle(0);
    let mut m = mover(100, 0, Response::Reflect { bounces: 0 });
    let r = resolve_tick(&mut m, SECOND, SHOT_MARGIN, |p, v, t| toi(&statics, &col, p, v, t, left_face));
    assert!(r.destroyed);
    assert_eq!(r.steps, vec![0]);
    assert_eq!(m.pos, Position::new(0, 0));
    assert_eq!(m.vel, Velocity::new(100, 0));
}

/// A wall on both sides: every sweep hits after one nanosecond.
fn corridor(_: Position, v: Velocity, _: u64) -> ToiResult {
    let norm = if v.v.x > 0 { Vec2::new(-S, 0) } else { Vec2::new(S, 0) };
    ToiResult::Toi(Toi { norm, toi_ns: 1 })
}

#[test]
fn projectile_dies_on_the_impact_after_its_budget() {
    for b in 0..4u8 {
        let mut m = mover(7, 0, Response::Reflect { bounces: b });
        let r = resolve_tick(&mut m, SECOND, SHOT_MARGIN, corridor);
        assert!(r.destroyed);
        assert_eq!(r.steps.len(), b as usize + 1);
        assert_eq!(m.response, Response::Reflect { bounces: 0 });
        assert_eq!(m.vel.v.x, if b % 2 == 0 { 7 } else { -7 });
    }
    let fresh = Mover::shot(Position::new(0, 0), Velocity::new(7, 0));
    assert_eq!(fresh.response, Response::Reflect { bounces: SHOT_BOUNCES });
}

#[test]
fn impacts_count_down_the_budget_across_ticks() {
    let mut m = mover(7, 0, Response::Reflect { bounces: 2 });
    let one = |_: Position, v: Velocity, t: u64| -> ToiResult {
        if t == SECOND { corridor(Position::new(0, 0), v, t) } else { ToiResult::Miss }
    };
    let r = resolve_tick(&mut m, SECOND, SHOT_MARGIN, one);
    assert!(!r.destroyed);
    assert_eq!(m.response, Response::Reflect { bounces: 1 });
    let r = resolve_tick(&mut m, SECOND, SHOT_MARGIN, one);
    assert!(!r.destroyed);
    assert_eq!(m.response, Response::Reflect { bounces: 0 });
    let r = resolve_tick(&mut m, SECOND, SHOT_MARGIN, one);
    assert!(r.destroyed);
}

#[test]
fn time_is_never_manufactured() {
    let late = |_: Position, _: Velocity, t: u64| -> ToiResult {
        ToiResult::Toi(Toi { norm: Vec2::new(-S, 0), toi_ns: t + 1 })
    };
    let mut m = mover(1, 0, Response::Slide);
    let r = resolve_tick(&mut m, 1000, PLAYER_MARGIN, late);
    assert_eq!(r.steps, vec![1000]);
    assert_eq!(m.pos, Position::new(1000, 0));

    let mut m = mover(1, 1, Response::Slide);
    let r = resolve_tick(&mut m, 1000, PLAYER_MARGIN, corridor);
    assert_eq!(r.steps.len(), MAX_ITERATIONS as usize);
    assert!(r.steps.iter().sum::<u64>() <= 1000);
}

#[test]
fn iteration_cap_truncates_the_tick() {
    let stuck = |_: Position, _: Velocity, _: u64| -> ToiResult {
        ToiResult::Contact(Contact { pos: Vec2::new(0, 0), norm: Vec2::new(0, S), dist: 10 })
    };
    let mut m = mover(5, 5, Response::Slide);
    let r = resolve_tick(&mut m, 1000, PLAYER_MARGIN, stuck);
    assert_eq!(r.steps, vec![0; 8]);
    assert!(!r.destroyed);
    assert_eq!(m.pos, Position::new(0, 8 * (10 + PLAYER_MARGIN)));
    assert_eq!(m.vel, Velocity::new(5, 0));
}

#[test]
fn penetration_is_pushed_out_past_the_margin() {
    let mut m = mover(-4, 0, Response::Slide);
    m.pos = Position::new(1000, 0);
    let o = ToiResult::Contact(Contact { pos: Vec2::new(1000, 0), norm: Vec2::new(S, 0), dist: 250 });
    let s = m.step(&o, 10, 3);
    assert_eq!(s.consumed_ns, 0);
    assert_eq!(m.pos, Position::new(1253, 0));
    assert_eq!(m.vel, Velocity::new(0, 0));
}

#[test]
fn zero_time_of_impact_is_a_touching_contact() {
    let mut m = mover(9, 0, Response::Reflect { bounces: 1 });
    let o = ToiResult::Toi(Toi { norm: Vec2::new(-S, 0), toi_ns: 0 });
    let s = m.step(&o, 10, 3);
    assert_eq!(s.consumed_ns, 0);
    assert_eq!(m.pos, Position::new(-3, 0));
    assert_eq!(m.vel, Velocity::new(-9, 0));
    assert_eq!(m.response, Response::Reflect { bounces: 0 });
}

#[test]
fn malformed_outcomes_count_as_misses() {
    let bad_norm = ToiResult::Contact(Contact { pos: Vec2::new(0, 0), norm: Vec2::new(1, 1), dist: 1 });
    let negative = ToiResult::Contact(Contact { pos: Vec2::new(0, 0), norm: Vec2::new(S, 0), dist: -1 });
    assert!(!impact_check(&bad_norm, 10));
    assert!(!impact_check(&negative, 10));
    assert!(!impact_check(&ToiResult::Miss, 10));
    let mut m = mover(2, 3, Response::Slide);
    let s = m.step(&bad_norm, 10, 3);
    assert_eq!(s.consumed_ns, 10);
    assert_eq!(m.pos, Position::new(20, 30));
}

#[test]
fn resting_mover_makes_no_query() {
    let never = |_: Position, _: Velocity, _: u64| -> ToiResult { panic!("no query at rest") };
    let mut m = Mover::player(Position::new(4, 4));
    let r = resolve_tick(&mut m, SECOND, PLAYER_MARGIN, never);
    assert!(r.steps.is_empty());
    assert_eq!(m, Mover::player(Position::new(4, 4)));
    assert!(m.within_limits());
}

#[test]
fn deep_overlap_is_pushed_by_the_limit() {
    let mut m = mover(0, 4, Response::Slide);
    let o = ToiResult::Contact(Contact { pos: Vec2::new(0, 0), norm: Vec2::new(S, 0), dist: PUSH_LIMIT + 5 });
    assert!(impact_check(&o, 10));
    let s = m.step(&o, 10, 3);
    assert_eq!(s.consumed_ns, 0);
    assert_eq!(m.pos, Position::new(PUSH_LIMIT + 3, 0));
    assert_eq!(m.vel, Velocity::new(0, 4));
}

#[test]
fn player_slides_round_a_bush() {
    // contact 30 degrees above the bush's centre
    let n = Vec2::new(-56_756, 32_768);
    let mut m = mover(900, 0, Response::Slide);
    let o = ToiResult::Toi(Toi { norm: n, toi_ns: 1000 });
    let s = m.step(&o, SECOND, PLAYER_MARGIN);
    assert_eq!(s.consumed_ns, 1000);
    assert_eq!(m.vel, Velocity::new(225, 390));
    let shot = &mut mover(900, 0, Response::Reflect { bounces: 1 });
    shot.step(&o, SECOND, SHOT_MARGIN);
    assert_eq!(shot.vel, Velocity::new(-450, 780));
    assert_eq!(shot.response, Response::Reflect { bounces: 0 });
}
