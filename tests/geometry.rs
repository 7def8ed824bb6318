use shooter::geometry::{plus, push, reflect, slide, Position, Vec2, Velocity, NORMAL_SCALE};

const S: i64 = NORMAL_SCALE;

fn axes() -> [Vec2; 4] {
    [Vec2::new(S, 0), Vec2::new(-S, 0), Vec2::new(0, S), Vec2::new(0, -S)]
}

/// The unit normal 30 degrees above the negative x axis, at scale.
fn diagonal() -> Vec2 {
    Vec2::new(-56_756, 32_768)
}

fn dot(a: Vec2, b: Vec2) -> i64 {
    a.x * b.x + a.y * b.y
}

#[test]
fn normals_are_directions_at_scale() {
    for n in axes() {
        assert!(n.is_normal());
    }
    assert!(diagonal().is_normal());
    assert!(Vec2::new(46_341, 46_341).is_normal());
    assert!(!Vec2::new(1, 0).is_normal());
    assert!(!Vec2::new(0, 0).is_normal());
    assert!(!Vec2::new(S + 1, 0).is_normal());
    assert!(!Vec2::new(S / 2, S / 2).is_normal());
}

#[test]
fn reflect_mirrors_the_normal_component() {
    assert_eq!(reflect(Vec2::new(3, 4), Vec2::new(-S, 0)), Vec2::new(-3, 4));
    assert_eq!(reflect(Vec2::new(3, 4), Vec2::new(0, S)), Vec2::new(3, -4));
    assert_eq!(reflect(Vec2::new(900, 0), diagonal()), Vec2::new(-450, 780));
}

#[test]
fn reflect_twice_restores_the_velocity() {
    let v = Vec2::new(-17, 250);
    for n in axes() {
        assert_eq!(reflect(reflect(v, n), n), v);
    }
    let w = reflect(reflect(Vec2::new(900, 0), diagonal()), diagonal());
    assert_eq!(w, Vec2::new(902, 2));
    let u = reflect(reflect(Vec2::new(2700, -1234), diagonal()), diagonal());
    assert!((u.x - 2700).abs() <= 10 && (u.y + 1234).abs() <= 10);
}

#[test]
fn slide_removes_the_normal_component() {
    let v = Vec2::new(-17, 250);
    for n in axes() {
        assert_eq!(dot(slide(v, n), n), 0);
    }
    assert_eq!(slide(Vec2::new(100, 7), Vec2::new(-S, 0)), Vec2::new(0, 7));
    let s = slide(Vec2::new(900, 0), diagonal());
    assert_eq!(s, Vec2::new(225, 390));
    let n = diagonal();
    assert!(dot(s, n).abs() < n.x.abs() + n.y.abs());
}

#[test]
fn vector_helpers() {
    assert_eq!(plus(Vec2::new(1, 2), Vec2::new(-5, 7)), Vec2::new(-4, 9));
    assert_eq!(push(Vec2::new(0, -S), 9), Vec2::new(0, -9));
    assert_eq!(push(diagonal(), 1000), Vec2::new(-867, 499));
    assert!(Vec2::new(5, -5).is_within(5));
    assert!(!Vec2::new(6, 0).is_within(5));
    assert_eq!(Position::new(1, 2).p, Vec2::new(1, 2));
    assert_eq!(Velocity::new(3, 4).v, Vec2::new(3, 4));
}
