use shooter::collide::{
    classify_hit, swept_aabb, toi, Aabb, Collidable, Contact, Hit, Shape, StaticSet, Toi,
    ToiResult,
};
use shooter::geometry::{Position, Vec2, Velocity, NORMAL_SCALE};

fn aabb(x0: i64, y0: i64, x1: i64, y1: i64) -> Aabb {
    Aabb { mins: Vec2::new(x0, y0), maxs: Vec2::new(x1, y1) }
}

#[test]
fn shapes_and_their_boxes() {
    assert_eq!(Collidable::circle(26).shape, Shape::Ball { radius: 26 });
    assert_eq!(Collidable::aa_rect(96, 3840).shape, Shape::Cuboid { half_w: 48, half_h: 1920 });
    let b = Collidable::aa_rect(10, 4).compute_aabb(&Position::new(100, -100));
    assert_eq!(b, aabb(95, -102, 105, -98));
    let c = Collidable::circle(3).compute_aabb(&Position::new(0, 1));
    assert_eq!(c, aabb(-3, -2, 3, 4));
    assert!(Collidable::circle(0).is_valid());
    assert!(!Collidable::circle(-1).is_valid());
}

#[test]
fn static_set_hands_out_dense_indices() {
    let mut s = StaticSet::new();
    assert_eq!(s.len(), 0);
    assert!(s.entries().is_empty());
    assert_eq!(s.insert(Collidable::circle(5), Position::new(0, 0)), Some(0));
    assert_eq!(s.insert(Collidable::circle(-5), Position::new(0, 0)), None);
    assert_eq!(s.insert(Collidable::aa_rect(4, 2), Position::new(10, 10)), Some(1));
    assert_eq!(s.len(), 2);
    assert_eq!(s.get(1).unwrap().pos, Position::new(10, 10));
    assert!(s.get(2).is_none());
    let e = s.entries();
    assert_eq!(e, vec![(0, aabb(-5, -5, 5, 5)), (1, aabb(8, 9, 12, 11))]);
    assert!(s.touches(&aabb(12, 11, 20, 20)));
    assert!(!s.touches(&aabb(13, 6, 20, 20)));
}

#[test]
fn swept_box_covers_start_and_end() {
    let c = Collidable::circle(2);
    let b = swept_aabb(&c, Position::new(10, 10), Velocity::new(-3, 1), 4);
    assert_eq!(b, aabb(-4, 8, 12, 16));
}

#[test]
fn hits_are_classified() {
    let n = Vec2::new(-NORMAL_SCALE, 0);
    let contact = Contact { pos: Vec2::new(1, 2), norm: n, dist: 7 };
    let hit = Hit { handle: 0, converged: true, toi_ns: 5, norm: n, contact: Some(contact) };
    assert_eq!(classify_hit(&hit), ToiResult::Toi(Toi { norm: n, toi_ns: 5 }));
    let touching = Hit { toi_ns: 0, ..hit };
    assert_eq!(classify_hit(&touching), ToiResult::Contact(contact));
    let failed = Hit { converged: false, contact: None, ..hit };
    assert_eq!(classify_hit(&failed), ToiResult::Miss);
    assert_eq!(contact.mtv(), Vec2::new(-7, 0));
}

#[test]
fn open_space_sweep_is_a_miss() {
    let mut s = StaticSet::new();
    s.insert(Collidable::aa_rect(10, 10), Position::new(100, 0));
    s.insert(Collidable::circle(5), Position::new(0, 100));
    let narrow = |_: Position, _: Velocity, _: u64| -> Option<Hit> {
        panic!("the exact query is not needed in open space")
    };
    let r = toi(&s, &Collidable::circle(3), Position::new(0, 0), Velocity::new(2, 2), 10, narrow);
    assert_eq!(r, ToiResult::Miss);
    let empty = StaticSet::new();
    let r = toi(&empty, &Collidable::circle(3), Position::new(0, 0), Velocity::new(1000, 0), 1000, narrow);
    assert_eq!(r, ToiResult::Miss);
}

#[test]
fn near_sweep_asks_the_exact_query() {
    let mut s = StaticSet::new();
    s.insert(Collidable::aa_rect(10, 10), Position::new(100, 0));
    let n = Vec2::new(-NORMAL_SCALE, 0);
    let narrow = |_: Position, _: Velocity, _: u64| -> Option<Hit> {
        Some(Hit { handle: 0, converged: true, toi_ns: 31, norm: n, contact: None })
    };
    let r = toi(&s, &Collidable::circle(3), Position::new(0, 0), Velocity::new(3, 0), 100, narrow);
    assert_eq!(r, ToiResult::Toi(Toi { norm: n, toi_ns: 31 }));
    let none = |_: Position, _: Velocity, _: u64| -> Option<Hit> { None };
    let r = toi(&s, &Collidable::circle(3), Position::new(0, 0), Velocity::new(3, 0), 100, none);
    assert_eq!(r, ToiResult::Miss);
}

#[test]
fn malformed_hits_are_failed_solves() {
    let mut s = StaticSet::new();
    s.insert(Collidable::aa_rect(10, 10), Position::new(100, 0));
    let col = Collidable::circle(3);
    let late = |_: Position, _: Velocity, _: u64| -> Option<Hit> {
        Some(Hit { handle: 0, converged: true, toi_ns: 101, norm: Vec2::new(-NORMAL_SCALE, 0), contact: None })
    };
    assert_eq!(toi(&s, &col, Position::new(0, 0), Velocity::new(3, 0), 100, late), ToiResult::Miss);
    let crooked = |_: Position, _: Velocity, _: u64| -> Option<Hit> {
        Some(Hit { handle: 0, converged: true, toi_ns: 5, norm: Vec2::new(-1, 0), contact: None })
    };
    assert_eq!(toi(&s, &col, Position::new(0, 0), Velocity::new(3, 0), 100, crooked), ToiResult::Miss);
}
