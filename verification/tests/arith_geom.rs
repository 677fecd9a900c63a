use rough_compose::arith::{abs_i64, clamp_i64, isqrt, lerp, COORD_MAX, UNITS_PER_PIXEL};
use rough_compose::geom::{Aabb, Point, Transform, TRANSFORM_ONE};
use rough_compose::trig::{cos_turn, direction, sin_turn, TRIG_ONE};

#[test]
fn isqrt_rounds_down() {
    assert_eq!(isqrt(0), 0);
    assert_eq!(isqrt(1), 1);
    assert_eq!(isqrt(2), 1);
    assert_eq!(isqrt(3), 1);
    assert_eq!(isqrt(4), 2);
    assert_eq!(isqrt(24), 4);
    assert_eq!(isqrt(25), 5);
    assert_eq!(isqrt(1_000_000), 1000);
    assert_eq!(isqrt(999_999), 999);
    assert_eq!(isqrt(u64::MAX), 4_294_967_295);
}

#[test]
fn isqrt_brackets_every_small_number() {
    for n in 0u64..5000 {
        let r = isqrt(n);
        assert!(r * r <= n);
        assert!((r + 1) * (r + 1) > n);
    }
}

#[test]
fn lerp_rounds_towards_its_first_end() {
    assert_eq!(lerp(0, 10, 1, 2), 5);
    assert_eq!(lerp(0, 9, 1, 2), 4);
    assert_eq!(lerp(9, 0, 1, 2), 5);
    assert_eq!(lerp(-9, 0, 1, 2), -5);
    assert_eq!(lerp(0, -9, 1, 2), -4);
    assert_eq!(lerp(100, 400, 2, 3), 300);
    assert_eq!(lerp(7, 7, 1, 3), 7);
}

#[test]
fn lerp_reaches_both_ends() {
    assert_eq!(lerp(-3, 12, 0, 7), -3);
    assert_eq!(lerp(-3, 12, 7, 7), 12);
    assert_eq!(lerp(COORD_MAX, -COORD_MAX, 5, 5), -COORD_MAX);
    assert_eq!(lerp(-COORD_MAX, COORD_MAX, 1, 2), 0);
}

#[test]
fn lerp_takes_wide_fractions() {
    let den: i64 = 1 << 44;
    assert_eq!(lerp(0, COORD_MAX, den / 4, den), COORD_MAX / 4);
}

#[test]
fn abs_and_clamp() {
    assert_eq!(abs_i64(-5), 5);
    assert_eq!(abs_i64(5), 5);
    assert_eq!(abs_i64(0), 0);
    assert_eq!(clamp_i64(7, 0, 5), 5);
    assert_eq!(clamp_i64(-7, 0, 5), 0);
    assert_eq!(clamp_i64(3, 0, 5), 3);
}

#[test]
fn one_pixel_is_256_units() {
    assert_eq!(UNITS_PER_PIXEL, 256);
    assert_eq!(COORD_MAX, 1 << 30);
}

#[test]
fn sines_of_the_quarter_turns() {
    assert_eq!(sin_turn(0), 0);
    assert_eq!(sin_turn(16), TRIG_ONE);
    assert_eq!(sin_turn(32), 0);
    assert_eq!(sin_turn(48), -TRIG_ONE);
    assert_eq!(cos_turn(0), TRIG_ONE);
    assert_eq!(cos_turn(16), 0);
    assert_eq!(cos_turn(32), -TRIG_ONE);
    assert_eq!(cos_turn(48), 0);
}

#[test]
fn sines_follow_the_table() {
    assert_eq!(sin_turn(1), 401);
    assert_eq!(sin_turn(8), 2896);
    assert_eq!(cos_turn(8), 2896);
    assert_eq!(sin_turn(24), 2896);
    assert_eq!(cos_turn(24), -2896);
    assert_eq!(sin_turn(63), -401);
    assert_eq!(cos_turn(63), 4076);
}

#[test]
fn sines_and_cosines_lie_on_the_circle() {
    for k in 0..64 {
        let s = sin_turn(k);
        let c = cos_turn(k);
        let norm = s * s + c * c;
        let one = TRIG_ONE * TRIG_ONE;
        assert!((norm - one).abs() < 8192, "direction {k}: {norm}");
    }
}

#[test]
fn direction_wraps_angles() {
    assert_eq!(direction(0), 0);
    assert_eq!(direction(63), 63);
    assert_eq!(direction(64), 0);
    assert_eq!(direction(130), 2);
    assert_eq!(direction(-1), 63);
    assert_eq!(direction(-64), 0);
    assert_eq!(direction(-7), 57);
    assert_eq!(direction(i64::MIN), 0);
}

#[test]
fn box_round_two_points() {
    let b = Aabb::new_positive(Point::new(5, -2), Point::new(-3, 9));
    assert_eq!(b.mins, Point::new(-3, -2));
    assert_eq!(b.maxs, Point::new(5, 9));
}

#[test]
fn box_from_half_extents() {
    let b = Aabb::from_half_extents(Point::new(10, 20), Point::new(3, 4));
    assert_eq!(b.mins, Point::new(7, 16));
    assert_eq!(b.maxs, Point::new(13, 24));
}

#[test]
fn box_loosened_grows_on_every_side() {
    let b = Aabb::new_positive(Point::new(0, 0), Point::new(10, 20)).loosened(5);
    assert_eq!(b.mins, Point::new(-5, -5));
    assert_eq!(b.maxs, Point::new(15, 25));
    let same = Aabb::new_positive(Point::new(0, 0), Point::new(10, 20)).loosened(0);
    assert_eq!(same.mins, Point::new(0, 0));
    assert_eq!(same.maxs, Point::new(10, 20));
}

#[test]
fn box_including_a_point() {
    let b = Aabb::new_positive(Point::new(0, 0), Point::new(10, 10));
    let wider = b.including(Point::new(-4, 12));
    assert_eq!(wider.mins, Point::new(-4, 0));
    assert_eq!(wider.maxs, Point::new(10, 12));
    assert_eq!(b.including(Point::new(5, 5)), b);
}

#[test]
fn box_contains_its_edges() {
    let b = Aabb::new_positive(Point::new(0, 0), Point::new(10, 10));
    assert!(b.contains(Point::new(0, 0)));
    assert!(b.contains(Point::new(10, 10)));
    assert!(b.contains(Point::new(5, 0)));
    assert!(!b.contains(Point::new(11, 5)));
    assert!(!b.contains(Point::new(5, -1)));
}

#[test]
fn identity_leaves_points() {
    let t = Transform::identity();
    assert_eq!(t.apply(Point::new(123, -456)), Point::new(123, -456));
    assert_eq!(t.a, TRANSFORM_ONE);
    assert_eq!(t.d, TRANSFORM_ONE);
}

#[test]
fn translation_moves_points() {
    let t = Transform::translation(Point::new(100, -50));
    assert_eq!(t.apply(Point::new(1, 2)), Point::new(101, -48));
}

#[test]
fn quarter_turn_swaps_axes() {
    let t = Transform { a: 0, b: -TRANSFORM_ONE, c: TRANSFORM_ONE, d: 0, tx: 10, ty: 20 };
    assert_eq!(t.apply(Point::new(7, 3)), Point::new(7, 27));
    assert_eq!(t.apply(Point::new(-7, -3)), Point::new(13, 13));
}

#[test]
fn apply_rounds_towards_zero() {
    let half = Transform { a: 2048, b: 0, c: 0, d: 2048, tx: 0, ty: 0 };
    assert_eq!(half.apply(Point::new(3, -3)), Point::new(1, -1));
    assert_eq!(half.apply(Point::new(5, -5)), Point::new(2, -2));
}

#[test]
fn image_box_of_upright_box() {
    let t = Transform::translation(Point::new(100, 200));
    let b = t.image_box(Point::new(30, 40));
    assert_eq!(b.mins, Point::new(70, 160));
    assert_eq!(b.maxs, Point::new(130, 240));
}

#[test]
fn image_box_of_turned_box_rounds_up() {
    let eighth = Transform { a: 2896, b: -2896, c: 2896, d: 2896, tx: 0, ty: 0 };
    let b = eighth.image_box(Point::new(1000, 500));
    // (2896 * 1000 + 2896 * 500) / 4096 = 1060.5..., rounded up
    assert_eq!(b.maxs, Point::new(1061, 1061));
    assert_eq!(b.mins, Point::new(-1061, -1061));
}

#[test]
fn image_box_holds_the_images_of_the_corners() {
    let t = Transform { a: 3547, b: -2048, c: 2048, d: 3547, tx: -77, ty: 31 };
    let half = Point::new(900, 333);
    let b = t.image_box(half);
    for (sx, sy) in [(1, 1), (1, -1), (-1, 1), (-1, -1)] {
        let corner = Point::new(sx * half.x, sy * half.y);
        assert!(b.contains(t.apply(corner)));
    }
}
