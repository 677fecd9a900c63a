use rough_compose::geom::{Aabb, Point};
use rough_compose::line::{amplitude, doubleline, length, LINE_JITTER_CAP};
use rough_compose::options::{Color, RoughOptions};
use rough_compose::path::{extend_path, PathEl};
use rough_compose::rng::RoughRng;

fn rough_line(
    start: Point,
    end: Point,
    move_to_first: bool,
    overlay: bool,
    options: &RoughOptions,
    rng: &mut RoughRng,
) -> Vec<PathEl> {
    rough_compose::line::line(start, end, move_to_first, overlay, options, rng)
}

fn seeded(seed: u64) -> RoughOptions {
    let mut options = RoughOptions::default();
    options.seed = Some(seed);
    options
}

fn still() -> RoughOptions {
    let mut options = seeded(1);
    options.roughness = 0;
    options.bowing = 0;
    options
}

fn points_of(path: &[PathEl]) -> Vec<Point> {
    let mut out = Vec::new();
    for el in path {
        match *el {
            PathEl::MoveTo(p) | PathEl::LineTo(p) => out.push(p),
            PathEl::CurveTo(a, b, c) => {
                out.push(a);
                out.push(b);
                out.push(c);
            }
            PathEl::ClosePath => {}
        }
    }
    out
}

#[test]
fn length_of_a_three_four_five_triangle() {
    assert_eq!(length(Point::new(0, 0), Point::new(300, 400)), 500);
    assert_eq!(length(Point::new(-300, 400), Point::new(0, 0)), 500);
    assert_eq!(length(Point::new(5, 5), Point::new(5, 5)), 0);
    assert_eq!(length(Point::new(0, 0), Point::new(1, 1)), 1);
    assert_eq!(length(Point::new(0, 0), Point::new(10, 10)), 14);
}

#[test]
fn length_across_the_whole_range() {
    let far = 1i64 << 30;
    assert_eq!(length(Point::new(-far, 0), Point::new(far, 0)), 2 * far);
    let diagonal = length(Point::new(-far, -far), Point::new(far, far));
    assert_eq!(diagonal, 3_037_000_499);
}

#[test]
fn amplitude_scales_and_caps() {
    // 512 units at roughness 1 and gain 1
    assert_eq!(amplitude(512, 256, 1024, 1024), 512);
    // roughness 2 doubles it, up to the cap
    assert_eq!(amplitude(512, 512, 1024, 1024), 1024);
    assert_eq!(amplitude(512, 1024, 1024, 1024), 1024);
    // gain 0.4
    assert_eq!(amplitude(512, 256, 410, 1024), 205);
    assert_eq!(amplitude(0, 4096, 1024, 1024), 0);
    assert_eq!(amplitude(512, 0, 1024, 1024), 0);
}

#[test]
fn line_has_a_move_and_a_curve() {
    let options = seeded(7);
    let mut rng = RoughRng::from_seed(7);
    let path = rough_line(Point::new(0, 0), Point::new(25600, 0), true, false, &options, &mut rng);
    assert_eq!(path.len(), 2);
    assert!(matches!(path[0], PathEl::MoveTo(_)));
    assert!(matches!(path[1], PathEl::CurveTo(_, _, _)));
}

#[test]
fn line_without_move_is_one_curve() {
    let options = seeded(7);
    let mut rng = RoughRng::from_seed(7);
    let path = rough_line(Point::new(0, 0), Point::new(25600, 0), false, false, &options, &mut rng);
    assert_eq!(path.len(), 1);
    assert!(matches!(path[0], PathEl::CurveTo(_, _, _)));
}

#[test]
fn line_takes_a_fixed_number_of_draws() {
    let options = seeded(7);
    let mut used = RoughRng::from_seed(7);
    rough_line(Point::new(0, 0), Point::new(25600, 300), true, false, &options, &mut used);
    let mut stepped = RoughRng::from_seed(7);
    for _ in 0..11 {
        stepped.next_u64();
    }
    assert_eq!(used, stepped);

    let mut used = RoughRng::from_seed(7);
    rough_line(Point::new(0, 0), Point::new(99, 1), false, true, &options, &mut used);
    let mut stepped = RoughRng::from_seed(7);
    for _ in 0..9 {
        stepped.next_u64();
    }
    assert_eq!(used, stepped);
}

#[test]
fn line_without_roughness_is_exact() {
    let options = still();
    let mut rng = RoughRng::from_seed(11);
    let mut probe = rng;
    let diverge = probe.below(201) as i64;
    let path = rough_line(Point::new(0, 0), Point::new(1000, -2000), true, false, &options, &mut rng);
    let c1 = Point::new(200 + diverge, -(2000 * (200 + diverge) / 1000));
    let c2 = Point::new(2 * (200 + diverge), -(2000 * 2 * (200 + diverge) / 1000));
    assert_eq!(
        path,
        vec![
            PathEl::MoveTo(Point::new(0, 0)),
            PathEl::CurveTo(c1, c2, Point::new(1000, -2000)),
        ]
    );
}

#[test]
fn line_is_repeatable() {
    let options = seeded(42);
    let mut a = RoughRng::from_seed(42);
    let mut b = RoughRng::from_seed(42);
    let first = rough_line(Point::new(-500, 20), Point::new(90000, 4000), true, false, &options, &mut a);
    let second = rough_line(Point::new(-500, 20), Point::new(90000, 4000), true, false, &options, &mut b);
    assert_eq!(first, second);
    assert_eq!(a, b);
}

#[test]
fn line_changes_with_the_seed() {
    let options = seeded(0);
    let mut seen: Vec<Vec<PathEl>> = Vec::new();
    for seed in 0..20u64 {
        let mut rng = RoughRng::from_seed(seed);
        let path = rough_line(Point::new(0, 0), Point::new(51200, 25600), true, false, &options, &mut rng);
        assert!(!seen.contains(&path), "seed {seed} repeats an earlier path");
        seen.push(path);
    }
}

#[test]
fn zero_length_line_stays_on_its_point() {
    let options = seeded(3);
    let p = Point::new(777, -888);
    let mut rng = RoughRng::from_seed(3);
    let path = rough_line(p, p, true, false, &options, &mut rng);
    assert_eq!(path, vec![PathEl::MoveTo(p), PathEl::CurveTo(p, p, p)]);
    let mut rng = RoughRng::from_seed(3);
    let twice = doubleline(p, p, &options, &mut rng);
    assert_eq!(
        twice,
        vec![
            PathEl::MoveTo(p),
            PathEl::CurveTo(p, p, p),
            PathEl::MoveTo(p),
            PathEl::CurveTo(p, p, p),
        ]
    );
}

#[test]
fn zero_length_line_at_the_edge_of_the_range() {
    let mut options = seeded(3);
    options.roughness = 4096;
    options.bowing = 4096;
    options.max_randomness_offset = 65536;
    let p = Point::new(1 << 30, -(1 << 30));
    let mut rng = RoughRng::from_seed(3);
    let path = rough_line(p, p, true, true, &options, &mut rng);
    assert_eq!(path, vec![PathEl::MoveTo(p), PathEl::CurveTo(p, p, p)]);
}

#[test]
fn short_line_jitters_less_than_a_tenth_of_its_length() {
    let mut options = seeded(5);
    options.bowing = 0;
    let start = Point::new(0, 0);
    let end = Point::new(100, 0);
    for seed in 0..50u64 {
        let mut rng = RoughRng::from_seed(seed);
        let path = rough_line(start, end, true, false, &options, &mut rng);
        let bounds = Aabb::new_positive(start, end).loosened(10);
        for p in points_of(&path) {
            assert!(bounds.contains(p), "{p:?}");
        }
    }
}

#[test]
fn line_stays_within_the_jitter_cap() {
    let mut options = seeded(5);
    options.roughness = 4096;
    options.bowing = 4096;
    options.max_randomness_offset = 65536;
    let start = Point::new(-300_000, 150_000);
    let end = Point::new(700_000, -950_000);
    let bounds = Aabb::new_positive(start, end).loosened(LINE_JITTER_CAP);
    for seed in 0..200u64 {
        let mut rng = RoughRng::from_seed(seed);
        for p in points_of(&doubleline(start, end, &options, &mut rng)) {
            assert!(bounds.contains(p), "{p:?}");
        }
    }
}

#[test]
fn line_ends_near_its_ends() {
    let options = seeded(5);
    let start = Point::new(0, 0);
    let end = Point::new(25600, 25600);
    let mut rng = RoughRng::from_seed(5);
    let path = rough_line(start, end, true, false, &options, &mut rng);
    let PathEl::MoveTo(head) = path[0] else { panic!("no move") };
    let PathEl::CurveTo(_, _, tail) = path[1] else { panic!("no curve") };
    assert!((head.x - start.x).abs() <= 512 && (head.y - start.y).abs() <= 512);
    assert!((tail.x - end.x).abs() <= 512 && (tail.y - end.y).abs() <= 512);
}

#[test]
fn overlay_pass_jitters_half_as_far() {
    let mut options = seeded(5);
    options.bowing = 0;
    let start = Point::new(0, 0);
    let end = Point::new(25600, 0);
    for seed in 0..50u64 {
        let mut rng = RoughRng::from_seed(seed);
        let path = rough_line(start, end, true, true, &options, &mut rng);
        let PathEl::MoveTo(head) = path[0] else { panic!("no move") };
        assert!(head.x.abs() <= 256 && head.y.abs() <= 256);
    }
}

#[test]
fn doubleline_is_two_lines_in_a_row() {
    let options = seeded(9);
    let start = Point::new(0, 0);
    let end = Point::new(40000, 1000);
    let mut rng = RoughRng::from_seed(9);
    let twice = doubleline(start, end, &options, &mut rng);
    let mut again = RoughRng::from_seed(9);
    let mut expected = rough_line(start, end, true, false, &options, &mut again);
    let second = rough_line(start, end, true, true, &options, &mut again);
    extend_path(&mut expected, &second);
    assert_eq!(twice, expected);
    assert_eq!(twice.len(), 4);
    assert_eq!(rng, again);
}

#[test]
fn doubleline_passes_differ() {
    let options = seeded(9);
    let mut rng = RoughRng::from_seed(9);
    let twice = doubleline(Point::new(0, 0), Point::new(40000, 1000), &options, &mut rng);
    assert_ne!(twice[1], twice[3]);
}

#[test]
fn stroke_color_does_not_move_the_line() {
    let mut plain = seeded(4);
    let mut red = seeded(4);
    plain.stroke_color = None;
    red.stroke_color = Some(Color { r: 255, g: 0, b: 0, a: 255 });
    let mut a = RoughRng::from_seed(4);
    let mut b = RoughRng::from_seed(4);
    assert_eq!(
        doubleline(Point::new(0, 0), Point::new(5000, 5000), &plain, &mut a),
        doubleline(Point::new(0, 0), Point::new(5000, 5000), &red, &mut b)
    );
}

#[test]
fn extend_path_appends() {
    let mut path = vec![PathEl::MoveTo(Point::new(0, 0))];
    let tail = vec![PathEl::LineTo(Point::new(1, 1)), PathEl::ClosePath];
    extend_path(&mut path, &tail);
    assert_eq!(
        path,
        vec![PathEl::MoveTo(Point::new(0, 0)), PathEl::LineTo(Point::new(1, 1)), PathEl::ClosePath]
    );
    extend_path(&mut path, &Vec::new());
    assert_eq!(path.len(), 3);
}
