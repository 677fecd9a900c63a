use rough_compose::arith::lerp;
use rough_compose::fill::{fill_polygon, hull};
use rough_compose::geom::{Aabb, Point};
use rough_compose::line::LINE_JITTER_CAP;
use rough_compose::options::RoughOptions;
use rough_compose::path::PathEl;
use rough_compose::rng::RoughRng;

fn still(gap: i64, angle: i64) -> RoughOptions {
    let mut options = RoughOptions::default();
    options.seed = Some(1);
    options.roughness = 0;
    options.bowing = 0;
    options.hachure_gap = gap;
    options.hachure_angle = angle;
    options
}

fn poly(points: &[(i64, i64)]) -> Vec<Point> {
    points.iter().map(|&(x, y)| Point::new(x, y)).collect()
}

/// The start and end of each fill segment.
fn spans_of(path: &[PathEl]) -> Vec<(Point, Point)> {
    let mut out = Vec::new();
    let mut i = 0;
    while i + 1 < path.len() {
        let PathEl::MoveTo(a) = path[i] else { panic!("segment {i} has no move") };
        let PathEl::CurveTo(_, _, b) = path[i + 1] else { panic!("segment {i} has no curve") };
        out.push((a, b));
        i += 2;
    }
    assert_eq!(i, path.len());
    out
}

fn points_of(path: &[PathEl]) -> Vec<Point> {
    let mut out = Vec::new();
    for el in path {
        match *el {
            PathEl::MoveTo(p) | PathEl::LineTo(p) => out.push(p),
            PathEl::CurveTo(a, b, c) => {
                out.push(a);
                out.push(b);
                out.push(c);
            }
            PathEl::ClosePath => {}
        }
    }
    out
}

#[test]
fn square_is_filled_with_level_lines() {
    let square = poly(&[(0, 0), (1000, 0), (1000, 1000), (0, 1000)]);
    let mut rng = RoughRng::from_seed(1);
    let path = fill_polygon(square, &still(250, 0), &mut rng);
    assert_eq!(
        spans_of(&path),
        vec![
            (Point::new(0, 125), Point::new(1000, 125)),
            (Point::new(0, 375), Point::new(1000, 375)),
            (Point::new(0, 625), Point::new(1000, 625)),
            (Point::new(0, 875), Point::new(1000, 875)),
        ]
    );
}

#[test]
fn fill_segments_are_rough_lines() {
    let square = poly(&[(0, 0), (1000, 0), (1000, 1000), (0, 1000)]);
    let options = still(500, 0);
    let mut rng = RoughRng::from_seed(8);
    let path = fill_polygon(square, &options, &mut rng);
    let mut again = RoughRng::from_seed(8);
    let mut expected = rough_compose::line::line(
        Point::new(0, 250),
        Point::new(1000, 250),
        true,
        false,
        &options,
        &mut again,
    );
    expected.extend(rough_compose::line::line(
        Point::new(0, 750),
        Point::new(1000, 750),
        true,
        false,
        &options,
        &mut again,
    ));
    assert_eq!(path, expected);
    assert_eq!(rng, again);
}

#[test]
fn fill_control_points_lie_on_the_segment() {
    let square = poly(&[(0, 0), (1000, 0), (1000, 1000), (0, 1000)]);
    let mut rng = RoughRng::from_seed(5);
    let mut probe = rng;
    let diverge = probe.below(201) as i64;
    let path = fill_polygon(square, &still(1000, 0), &mut rng);
    assert_eq!(
        path,
        vec![
            PathEl::MoveTo(Point::new(0, 500)),
            PathEl::CurveTo(
                Point::new(lerp(0, 1000, 200 + diverge, 1000), 500),
                Point::new(lerp(0, 1000, 2 * (200 + diverge), 1000), 500),
                Point::new(1000, 500),
            ),
        ]
    );
}

#[test]
fn upright_fill_lines() {
    let square = poly(&[(0, 0), (1000, 0), (1000, 1000), (0, 1000)]);
    let mut rng = RoughRng::from_seed(1);
    let path = fill_polygon(square, &still(500, 16), &mut rng);
    let spans = spans_of(&path);
    assert_eq!(spans.len(), 2);
    for (a, b) in spans {
        assert_eq!(a.x, b.x);
        assert_eq!((a.y - b.y).abs(), 1000);
    }
}

#[test]
fn notched_polygon_gets_two_spans_beside_the_notch() {
    let notched = poly(&[
        (0, 0),
        (300, 0),
        (300, 1000),
        (700, 1000),
        (700, 0),
        (1000, 0),
        (1000, 2000),
        (0, 2000),
    ]);
    let mut rng = RoughRng::from_seed(1);
    let path = fill_polygon(notched, &still(500, 0), &mut rng);
    assert_eq!(
        spans_of(&path),
        vec![
            (Point::new(0, 250), Point::new(300, 250)),
            (Point::new(700, 250), Point::new(1000, 250)),
            (Point::new(0, 750), Point::new(300, 750)),
            (Point::new(700, 750), Point::new(1000, 750)),
            (Point::new(0, 1250), Point::new(1000, 1250)),
            (Point::new(0, 1750), Point::new(1000, 1750)),
        ]
    );
}

#[test]
fn vertex_on_a_fill_line_is_met_once() {
    let diamond = poly(&[(500, 0), (1000, 500), (500, 1000), (0, 500)]);
    let mut rng = RoughRng::from_seed(1);
    let path = fill_polygon(diamond, &still(200, 0), &mut rng);
    let spans = spans_of(&path);
    assert_eq!(spans.len(), 5);
    assert_eq!(spans[0], (Point::new(400, 100), Point::new(600, 100)));
    assert_eq!(spans[2], (Point::new(0, 500), Point::new(1000, 500)));
    assert_eq!(spans[1], (Point::new(200, 300), Point::new(800, 300)));
    assert_eq!(spans[4], (Point::new(400, 900), Point::new(600, 900)));
}

#[test]
fn inner_corner_on_a_fill_line_splits_it_in_two() {
    let notched = poly(&[(0, 0), (1000, 0), (1000, 1000), (500, 500), (0, 1000)]);
    let mut rng = RoughRng::from_seed(1);
    let path = fill_polygon(notched, &still(200, 0), &mut rng);
    let spans = spans_of(&path);
    assert!(spans.contains(&(Point::new(0, 500), Point::new(500, 500))));
    assert!(spans.contains(&(Point::new(500, 500), Point::new(1000, 500))));
}

#[test]
fn coincident_crossings_give_no_segment() {
    let pinched = poly(&[(0, 0), (1000, 0), (500, 500), (1000, 1000), (0, 1000), (500, 500)]);
    let mut rng = RoughRng::from_seed(1);
    let path = fill_polygon(pinched, &still(200, 0), &mut rng);
    for (a, b) in spans_of(&path) {
        assert_ne!(a, b);
        assert_ne!(a.y, 500);
    }
}

#[test]
fn fewer_than_three_vertices_give_no_fill() {
    let options = still(100, 0);
    for vertices in [poly(&[]), poly(&[(0, 0)]), poly(&[(0, 0), (1000, 1000)])] {
        let mut rng = RoughRng::from_seed(1);
        let path = fill_polygon(vertices, &options, &mut rng);
        assert!(path.is_empty());
        assert_eq!(rng, RoughRng::from_seed(1));
    }
}

#[test]
fn flat_polygon_gives_no_fill() {
    let mut rng = RoughRng::from_seed(1);
    let path = fill_polygon(poly(&[(0, 5), (100, 5), (300, 5)]), &still(100, 0), &mut rng);
    assert!(path.is_empty());
}

#[test]
fn gap_defaults_to_four_stroke_widths() {
    let square = poly(&[(0, 0), (10240, 0), (10240, 10240), (0, 10240)]);
    let mut options = still(-1, 0);
    options.stroke_width = 256;
    let mut rng = RoughRng::from_seed(1);
    let path = fill_polygon(square, &options, &mut rng);
    let spans = spans_of(&path);
    assert_eq!(spans.len(), 10);
    assert_eq!(spans[0].0, Point::new(0, 512));
    assert_eq!(spans[1].0, Point::new(0, 1536));
}

#[test]
fn gap_is_never_below_the_smallest() {
    let square = poly(&[(0, 0), (640, 0), (640, 640), (0, 640)]);
    let mut options = still(0, 0);
    options.stroke_width = 0;
    let mut rng = RoughRng::from_seed(1);
    let path = fill_polygon(square, &options, &mut rng);
    assert_eq!(spans_of(&path).len(), 10);
}

#[test]
fn number_of_fill_lines_is_capped() {
    let far = 1i64 << 30;
    let square = poly(&[(-far, -far), (far, -far), (far, far), (-far, far)]);
    let mut rng = RoughRng::from_seed(1);
    let path = fill_polygon(square, &still(64, 0), &mut rng);
    let n = spans_of(&path).len();
    assert!(n <= 1024, "{n}");
    assert!(n >= 1000, "{n}");
}

#[test]
fn slanted_fill_stays_in_the_loosened_hull() {
    let shape = poly(&[(0, 0), (40000, 3000), (52000, 41000), (25000, 20000), (-8000, 47000)]);
    let bounds = hull(&shape).loosened(LINE_JITTER_CAP);
    for angle in [-7, 3, 8, 21, 40, 57] {
        let mut options = RoughOptions::default();
        options.hachure_angle = angle;
        options.hachure_gap = 1500;
        options.roughness = 1024;
        for seed in 0..10u64 {
            let mut rng = RoughRng::from_seed(seed);
            let path = fill_polygon(shape.clone(), &options, &mut rng);
            assert!(!path.is_empty());
            for p in points_of(&path) {
                assert!(bounds.contains(p), "{p:?} at angle {angle}");
            }
        }
    }
}

#[test]
fn slanted_fill_ends_on_the_edges_of_a_square() {
    let square = poly(&[(0, 0), (10000, 0), (10000, 10000), (0, 10000)]);
    let mut rng = RoughRng::from_seed(1);
    let path = fill_polygon(square, &still(1000, 8), &mut rng);
    let spans = spans_of(&path);
    assert!(!spans.is_empty());
    for (a, b) in spans {
        for p in [a, b] {
            let on_edge = p.x == 0 || p.x == 10000 || p.y == 0 || p.y == 10000;
            assert!(on_edge, "{p:?}");
        }
        // an eighth of a turn: the line rises as far as it runs
        assert!(((b.x - a.x) - (b.y - a.y)).abs() <= 2, "{a:?} {b:?}");
    }
}

#[test]
fn fill_is_repeatable_and_follows_the_seed() {
    let shape = poly(&[(0, 0), (40000, 3000), (52000, 41000), (-8000, 47000)]);
    let options = RoughOptions::default();
    let mut a = RoughRng::from_seed(3);
    let mut b = RoughRng::from_seed(3);
    let mut c = RoughRng::from_seed(4);
    let first = fill_polygon(shape.clone(), &options, &mut a);
    let second = fill_polygon(shape.clone(), &options, &mut b);
    let third = fill_polygon(shape, &options, &mut c);
    assert_eq!(first, second);
    assert_ne!(first, third);
}

#[test]
fn hull_of_vertices() {
    let shape = poly(&[(3, 4), (-5, 9), (7, -2)]);
    assert_eq!(hull(&shape), Aabb { mins: Point::new(-5, -2), maxs: Point::new(7, 9) });
    assert_eq!(hull(&poly(&[])), Aabb { mins: Point::new(0, 0), maxs: Point::new(0, 0) });
    assert_eq!(hull(&poly(&[(4, 5)])), Aabb { mins: Point::new(4, 5), maxs: Point::new(4, 5) });
}
