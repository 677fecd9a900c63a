use rough_compose::curve::{
    cubic_bezier, curve_point, curve_steps, nudged, quadratic_bezier, Controls, CURVE_JITTER_CAP,
};
use rough_compose::geom::{Aabb, Point};
use rough_compose::options::RoughOptions;
use rough_compose::path::PathEl;
use rough_compose::rng::RoughRng;

fn seeded(seed: u64) -> RoughOptions {
    let mut options = RoughOptions::default();
    options.seed = Some(seed);
    options
}

fn points_of(path: &[PathEl]) -> Vec<Point> {
    let mut out = Vec::new();
    for el in path {
        match *el {
            PathEl::MoveTo(p) | PathEl::LineTo(p) => out.push(p),
            PathEl::CurveTo(a, b, c) => {
                out.push(a);
                out.push(b);
                out.push(c);
            }
            PathEl::ClosePath => {}
        }
    }
    out
}

fn moves(path: &[PathEl]) -> usize {
    path.iter().filter(|el| matches!(el, PathEl::MoveTo(_))).count()
}

fn curves(path: &[PathEl]) -> usize {
    path.iter().filter(|el| matches!(el, PathEl::CurveTo(_, _, _))).count()
}

#[test]
fn quadratic_points() {
    let p = Point::new(0, 0);
    let c = Point::new(1000, 2000);
    let e = Point::new(2000, 0);
    let ctrl = Controls { p0: p, p1: c, p2: e, p3: e };
    assert_eq!(curve_point(&ctrl, false, 0, 4), p);
    assert_eq!(curve_point(&ctrl, false, 4, 4), e);
    // (1/4 * 0 + 2/4 * 1000 + 1/4 * 2000, 2/4 * 2000)
    assert_eq!(curve_point(&ctrl, false, 2, 4), Point::new(1000, 1000));
    // weights 9, 6, 1 of 16
    assert_eq!(curve_point(&ctrl, false, 1, 4), Point::new(500, 750));
}

#[test]
fn cubic_points() {
    let ctrl = Controls {
        p0: Point::new(0, 0),
        p1: Point::new(0, 800),
        p2: Point::new(800, 800),
        p3: Point::new(800, 0),
    };
    assert_eq!(curve_point(&ctrl, true, 0, 8), Point::new(0, 0));
    assert_eq!(curve_point(&ctrl, true, 8, 8), Point::new(800, 0));
    // weights 1, 3, 3, 1 of 8
    assert_eq!(curve_point(&ctrl, true, 4, 8), Point::new(400, 600));
    // weights 27, 27, 9, 1 of 64
    assert_eq!(curve_point(&ctrl, true, 1, 4), Point::new(125, 450));
}

#[test]
fn curve_points_round_down_towards_the_smallest_coordinate() {
    let ctrl = Controls {
        p0: Point::new(-1, -1),
        p1: Point::new(0, 0),
        p2: Point::new(0, 0),
        p3: Point::new(0, 0),
    };
    // -27/64 rounds down to -1
    assert_eq!(curve_point(&ctrl, true, 1, 4), Point::new(-1, -1));
}

#[test]
fn step_count_is_held_between_four_and_sixty_four() {
    let mut options = RoughOptions::default();
    assert_eq!(curve_steps(&options), 9);
    options.curve_stepcount = 0;
    assert_eq!(curve_steps(&options), 4);
    options.curve_stepcount = -5;
    assert_eq!(curve_steps(&options), 4);
    options.curve_stepcount = 64;
    assert_eq!(curve_steps(&options), 64);
    options.curve_stepcount = i64::MAX;
    assert_eq!(curve_steps(&options), 64);
}

#[test]
fn nudged_point_stays_in_range() {
    let far = 1i64 << 30;
    for seed in 0..50u64 {
        let mut rng = RoughRng::from_seed(seed);
        let p = nudged(Point::new(far, -far), 1000, &mut rng);
        assert!(p.x <= far && p.x >= far - 1000);
        assert!(p.y >= -far && p.y <= -far + 1000);
    }
    let mut rng = RoughRng::from_seed(1);
    assert_eq!(nudged(Point::new(5, 6), 0, &mut rng), Point::new(5, 6));
}

#[test]
fn quadratic_curve_has_two_passes_of_chords() {
    let options = seeded(2);
    let mut rng = RoughRng::from_seed(2);
    let path = quadratic_bezier(
        Point::new(0, 0),
        Point::new(20000, 40000),
        Point::new(40000, 0),
        &options,
        &mut rng,
    );
    assert_eq!(path.len(), 20);
    assert_eq!(moves(&path), 2);
    assert_eq!(curves(&path), 18);
    assert!(matches!(path[0], PathEl::MoveTo(_)));
    assert!(matches!(path[10], PathEl::MoveTo(_)));
}

#[test]
fn quadratic_curve_in_one_pass() {
    let mut options = seeded(2);
    options.disable_multistroke = true;
    options.curve_stepcount = 5;
    let mut rng = RoughRng::from_seed(2);
    let path = quadratic_bezier(
        Point::new(0, 0),
        Point::new(20000, 40000),
        Point::new(40000, 0),
        &options,
        &mut rng,
    );
    assert_eq!(path.len(), 6);
    assert_eq!(moves(&path), 1);
    assert_eq!(curves(&path), 5);
}

#[test]
fn cubic_curve_counts() {
    let mut options = seeded(2);
    options.curve_stepcount = 12;
    let mut rng = RoughRng::from_seed(2);
    let path = cubic_bezier(
        Point::new(0, 0),
        Point::new(0, 40000),
        Point::new(40000, 40000),
        Point::new(40000, 0),
        &options,
        &mut rng,
    );
    assert_eq!(path.len(), 26);
    assert_eq!(curves(&path), 24);
    options.disable_multistroke = true;
    let mut rng = RoughRng::from_seed(2);
    let path = cubic_bezier(
        Point::new(0, 0),
        Point::new(0, 40000),
        Point::new(40000, 40000),
        Point::new(40000, 0),
        &options,
        &mut rng,
    );
    assert_eq!(path.len(), 13);
    assert_eq!(curves(&path), 12);
}

#[test]
fn still_quadratic_curve_passes_through_its_points() {
    let mut options = seeded(2);
    options.roughness = 0;
    options.bowing = 0;
    options.disable_multistroke = true;
    options.curve_stepcount = 4;
    let start = Point::new(0, 0);
    let cp = Point::new(1000, 2000);
    let end = Point::new(2000, 0);
    let mut rng = RoughRng::from_seed(2);
    let path = quadratic_bezier(start, cp, end, &options, &mut rng);
    let ends: Vec<Point> = path
        .iter()
        .map(|el| match *el {
            PathEl::MoveTo(p) => p,
            PathEl::CurveTo(_, _, p) => p,
            _ => panic!("unexpected command"),
        })
        .collect();
    assert_eq!(
        ends,
        vec![
            Point::new(0, 0),
            Point::new(500, 750),
            Point::new(1000, 1000),
            Point::new(1500, 750),
            Point::new(2000, 0),
        ]
    );
}

#[test]
fn still_cubic_curve_passes_through_its_points() {
    let mut options = seeded(2);
    options.roughness = 0;
    options.bowing = 0;
    options.disable_multistroke = true;
    options.curve_stepcount = 4;
    let mut rng = RoughRng::from_seed(2);
    let path = cubic_bezier(
        Point::new(0, 0),
        Point::new(0, 800),
        Point::new(800, 800),
        Point::new(800, 0),
        &options,
        &mut rng,
    );
    let ends: Vec<Point> = path
        .iter()
        .map(|el| match *el {
            PathEl::MoveTo(p) => p,
            PathEl::CurveTo(_, _, p) => p,
            _ => panic!("unexpected command"),
        })
        .collect();
    assert_eq!(
        ends,
        vec![
            Point::new(0, 0),
            Point::new(125, 450),
            Point::new(400, 600),
            Point::new(675, 450),
            Point::new(800, 0),
        ]
    );
}

#[test]
fn curves_are_repeatable_and_follow_the_seed() {
    let options = seeded(0);
    let run = |seed: u64| {
        let mut rng = RoughRng::from_seed(seed);
        let mut path = quadratic_bezier(
            Point::new(0, 0),
            Point::new(20000, 40000),
            Point::new(40000, 0),
            &options,
            &mut rng,
        );
        path.extend(cubic_bezier(
            Point::new(0, 0),
            Point::new(0, 40000),
            Point::new(40000, 40000),
            Point::new(40000, 0),
            &options,
            &mut rng,
        ));
        path
    };
    assert_eq!(run(6), run(6));
    assert_ne!(run(6), run(7));
}

#[test]
fn curves_stay_within_the_jitter_cap_of_their_control_points() {
    let mut options = seeded(0);
    options.roughness = 4096;
    options.bowing = 4096;
    options.max_randomness_offset = 65536;
    let a = Point::new(-100_000, 5_000);
    let b = Point::new(300_000, 900_000);
    let c = Point::new(-450_000, 20_000);
    let d = Point::new(600_000, -70_000);
    let quad_box = Aabb::new_positive(a, b).including(c).loosened(CURVE_JITTER_CAP);
    let cubic_box = Aabb::new_positive(a, b).including(c).including(d).loosened(CURVE_JITTER_CAP);
    for seed in 0..40u64 {
        let mut rng = RoughRng::from_seed(seed);
        for p in points_of(&quadratic_bezier(a, b, c, &options, &mut rng)) {
            assert!(quad_box.contains(p), "{p:?}");
        }
        for p in points_of(&cubic_bezier(a, b, c, d, &options, &mut rng)) {
            assert!(cubic_box.contains(p), "{p:?}");
        }
    }
}

#[test]
fn collapsed_curve_stays_near_its_point() {
    let options = seeded(1);
    let p = Point::new(4000, 4000);
    let mut rng = RoughRng::from_seed(1);
    let path = cubic_bezier(p, p, p, p, &options, &mut rng);
    let bounds = Aabb::new_positive(p, p).loosened(CURVE_JITTER_CAP);
    assert_eq!(path.len(), 20);
    for q in points_of(&path) {
        assert!(bounds.contains(q));
    }
}
