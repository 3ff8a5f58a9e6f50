use shooter_core::spatial::circles_overlap;
use shooter_core::vec2::Vec2;

#[test]
fn length_of_a_pythagorean_vector() {
    let v = Vec2 { x: 3_000, y: 4_000 };
    assert_eq!(v.length(), 5_000);
}

#[test]
fn normalize_gives_a_unit_vector() {
    let v = Vec2 { x: 3_000, y: 4_000 };
    assert_eq!(v.normalize_or_zero(), Vec2 { x: 600, y: 800 });
    let w = Vec2 { x: -3_000, y: 4_000 };
    assert_eq!(w.normalize_or_zero(), Vec2 { x: -600, y: 800 });
    let a = Vec2 { x: 0, y: 5 };
    assert_eq!(a.normalize_or_zero(), Vec2 { x: 0, y: 1_000 });
}

#[test]
fn tiny_vectors_normalize_near_unit_length() {
    // the smallest diagonal draw: its length is taken at sub-milli
    // precision, so the result is not half again too long
    let v = Vec2 { x: 1, y: 1 };
    let n = v.normalize_or_zero();
    assert_eq!(n, Vec2 { x: 707, y: 707 });
    let len2 = n.x * n.x + n.y * n.y;
    assert!(len2 <= 1_002_001);
    assert!(len2 >= 998_000);

    let w = Vec2 { x: 3, y: -4 };
    assert_eq!(w.normalize_or_zero(), Vec2 { x: 600, y: -800 });
}

#[test]
fn normalize_of_zero_is_zero() {
    let v = Vec2 { x: 0, y: 0 };
    assert_eq!(v.normalize_or_zero(), Vec2 { x: 0, y: 0 });
}

#[test]
fn componentwise_arithmetic() {
    let a = Vec2 { x: 10, y: -20 };
    let b = Vec2 { x: 5, y: 7 };
    assert_eq!(a.add_sat(b), Vec2 { x: 15, y: -13 });
    assert_eq!(a.sub_sat(b), Vec2 { x: 5, y: -27 });
    assert_eq!(a.scale_milli(500), Vec2 { x: 5, y: -10 });
}

#[test]
fn overlap_is_distance_against_radii() {
    let origin = Vec2 { x: 0, y: 0 };
    let far = Vec2 { x: 1_500, y: 0 };
    assert!(!circles_overlap(origin, 1_000, far, 400));
    assert!(circles_overlap(origin, 1_000, far, 600));
    assert!(circles_overlap(origin, 1_000, origin, 0));
}
