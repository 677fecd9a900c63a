use rough_compose::arith::lerp;
use rough_compose::compose::{corners, edge, rectangle_outline, DrawOp, JITTER_CAP};
use rough_compose::geom::{Aabb, Point, Transform, TRANSFORM_ONE};
use rough_compose::options::{Color, RoughOptions, ROUGH_BOUNDS_MARGIN};
use rough_compose::path::PathEl;
use rough_compose::rng::{new_rng, RoughRng};
use rough_compose::shapes::{CubicBezier, Ellipse, Line, QuadraticBezier, Rectangle, Shape};

const RED: Color = Color { r: 255, g: 0, b: 0, a: 255 };

fn seeded(seed: u64) -> RoughOptions {
    let mut options = RoughOptions::default();
    options.seed = Some(seed);
    options
}

fn points_of(path: &[PathEl]) -> Vec<Point> {
    let mut out = Vec::new();
    for el in path {
        match *el {
            PathEl::MoveTo(p) | PathEl::LineTo(p) => out.push(p),
            PathEl::CurveTo(a, b, c) => {
                out.push(a);
                out.push(b);
                out.push(c);
            }
            PathEl::ClosePath => {}
        }
    }
    out
}

fn segments(path: &[PathEl]) -> usize {
    path.iter().filter(|el| matches!(el, PathEl::CurveTo(_, _, _) | PathEl::LineTo(_))).count()
}

fn stroke_of(ops: &[DrawOp]) -> Option<&Vec<PathEl>> {
    ops.iter().find_map(|op| match op {
        DrawOp::Stroke { path, .. } => Some(path),
        _ => None,
    })
}

fn fill_of(ops: &[DrawOp]) -> Option<&Vec<PathEl>> {
    ops.iter().find_map(|op| match op {
        DrawOp::Fill { path, .. } => Some(path),
        _ => None,
    })
}

/// Every point that the steps fill or stroke, as the backend places it.
fn landed_points(ops: &[DrawOp]) -> Vec<Point> {
    let mut current = Transform::identity();
    let mut saved = Vec::new();
    let mut out = Vec::new();
    for op in ops {
        match op {
            DrawOp::Save => saved.push(current),
            DrawOp::Restore => current = saved.pop().expect("restore without save"),
            DrawOp::Transform(t) => current = *t,
            DrawOp::Fill { path, .. } | DrawOp::Stroke { path, .. } => {
                for p in points_of(path) {
                    out.push(current.apply(p));
                }
            }
            _ => {}
        }
    }
    assert!(saved.is_empty());
    out
}

fn all_shapes() -> Vec<Shape> {
    vec![
        Shape::Line(Line { start: Point::new(-3000, 500), end: Point::new(70000, 90000) }),
        Shape::Rectangle(Rectangle {
            transform: Transform::translation(Point::new(10000, 20000)),
            half_extents: Point::new(30000, 8000),
        }),
        Shape::Rectangle(Rectangle {
            transform: Transform { a: 2896, b: -2896, c: 2896, d: 2896, tx: -500, ty: 900 },
            half_extents: Point::new(30000, 8000),
        }),
        Shape::Ellipse(Ellipse {
            transform: Transform { a: 3547, b: -2048, c: 2048, d: 3547, tx: 0, ty: 0 },
            radii: Point::new(40000, 15000),
        }),
        Shape::QuadraticBezier(QuadraticBezier {
            start: Point::new(0, 0),
            cp: Point::new(30000, 60000),
            end: Point::new(60000, 0),
        }),
        Shape::CubicBezier(CubicBezier {
            start: Point::new(0, 0),
            cp1: Point::new(0, 60000),
            cp2: Point::new(60000, 60000),
            end: Point::new(60000, 0),
        }),
    ]
}

#[test]
fn bounds_margin_is_half_the_stroke_width_and_the_margin() {
    let mut options = RoughOptions::default();
    assert_eq!(ROUGH_BOUNDS_MARGIN, 5120);
    assert_eq!(options.bounds_margin(), 128 + 5120);
    options.stroke_width = 0;
    assert_eq!(options.bounds_margin(), 5120);
    options.stroke_width = 5;
    assert_eq!(options.bounds_margin(), 3 + 5120);
}

#[test]
fn default_options() {
    let options = RoughOptions::default();
    assert_eq!(options.seed, None);
    assert_eq!(options.stroke_width, 256);
    assert_eq!(options.stroke_color, Some(Color::black()));
    assert_eq!(options.fill_color, None);
    assert!(!options.disable_multistroke);
    assert_eq!(options.roughness, 256);
    assert_eq!(options.bowing, 256);
    assert_eq!(options.max_randomness_offset, 512);
    assert_eq!(options.curve_stepcount, 9);
    assert_eq!(options.hachure_gap, -1);
    assert_eq!(options.hachure_angle, 57);
}

#[test]
fn line_bounds_are_loosened() {
    let line = Line { start: Point::new(1000, 500), end: Point::new(0, 0) };
    let options = RoughOptions::default();
    assert_eq!(line.bounds(), Aabb { mins: Point::new(0, 0), maxs: Point::new(1000, 500) });
    assert_eq!(
        line.composed_bounds(&options),
        Aabb { mins: Point::new(-5248, -5248), maxs: Point::new(6248, 5748) }
    );
}

#[test]
fn rectangle_bounds_follow_the_transform() {
    let rect = Rectangle {
        transform: Transform::translation(Point::new(100, 200)),
        half_extents: Point::new(30, 40),
    };
    let mut options = RoughOptions::default();
    options.stroke_width = 0;
    assert_eq!(
        rect.composed_bounds(&options),
        Aabb { mins: Point::new(70 - 5120, 160 - 5120), maxs: Point::new(130 + 5120, 240 + 5120) }
    );
    let turned = Rectangle {
        transform: Transform { a: 0, b: -TRANSFORM_ONE, c: TRANSFORM_ONE, d: 0, tx: 0, ty: 0 },
        half_extents: Point::new(30, 40),
    };
    assert_eq!(turned.bounds(), Aabb { mins: Point::new(-40, -30), maxs: Point::new(40, 30) });
}

#[test]
fn curve_bounds_hold_the_control_points() {
    let quad = QuadraticBezier {
        start: Point::new(0, 0),
        cp: Point::new(50, 100),
        end: Point::new(100, 0),
    };
    assert_eq!(quad.bounds(), Aabb { mins: Point::new(0, 0), maxs: Point::new(100, 100) });
    let cubic = CubicBezier {
        start: Point::new(0, 0),
        cp1: Point::new(-20, 100),
        cp2: Point::new(120, -30),
        end: Point::new(100, 0),
    };
    assert_eq!(cubic.bounds(), Aabb { mins: Point::new(-20, -30), maxs: Point::new(120, 100) });
    let mut options = RoughOptions::default();
    options.stroke_width = 512;
    assert_eq!(
        cubic.composed_bounds(&options),
        Aabb { mins: Point::new(-20 - 5376, -30 - 5376), maxs: Point::new(120 + 5376, 100 + 5376) }
    );
}

#[test]
fn shape_bounds_are_those_of_the_primitive() {
    let options = RoughOptions::default();
    for shape in all_shapes() {
        let expected = match shape {
            Shape::Line(s) => s.composed_bounds(&options),
            Shape::Rectangle(s) => s.composed_bounds(&options),
            Shape::Ellipse(s) => s.composed_bounds(&options),
            Shape::QuadraticBezier(s) => s.composed_bounds(&options),
            Shape::CubicBezier(s) => s.composed_bounds(&options),
        };
        assert_eq!(shape.composed_bounds(&options), expected);
        assert_eq!(shape.bounds().loosened(options.bounds_margin()), expected);
    }
}

#[test]
fn shape_draws_as_the_primitive_does() {
    let options = seeded(5);
    for shape in all_shapes() {
        let expected = match shape {
            Shape::Line(s) => s.draw_composed(&options, 0),
            Shape::Rectangle(s) => s.draw_composed(&options, 0),
            Shape::Ellipse(s) => s.draw_composed(&options, 0),
            Shape::QuadraticBezier(s) => s.draw_composed(&options, 0),
            Shape::CubicBezier(s) => s.draw_composed(&options, 0),
        };
        assert_eq!(shape.draw_composed(&options, 0), expected);
    }
}

#[test]
fn line_is_saved_stroked_and_restored() {
    let options = seeded(1);
    let line = Line { start: Point::new(0, 0), end: Point::new(25600, 25600) };
    let ops = line.draw_composed(&options, 0);
    assert_eq!(ops.len(), 3);
    assert_eq!(ops[0], DrawOp::Save);
    assert_eq!(ops[2], DrawOp::Restore);
    let mut rng = RoughRng::from_seed(1);
    let path = rough_compose::line::doubleline(line.start, line.end, &options, &mut rng);
    assert_eq!(ops[1], DrawOp::Stroke { path, color: Color::black(), width: 256 });
}

#[test]
fn line_without_stroke_color_draws_nothing() {
    let mut options = seeded(1);
    options.stroke_color = None;
    let line = Line { start: Point::new(0, 0), end: Point::new(25600, 25600) };
    assert_eq!(line.draw_composed(&options, 0), vec![DrawOp::Save, DrawOp::Restore]);
}

#[test]
fn multistroke_doubles_the_line() {
    let line = Line { start: Point::new(0, 0), end: Point::new(25600, 25600) };
    let mut options = seeded(1);
    options.disable_multistroke = true;
    let single = line.draw_composed(&options, 0);
    options.disable_multistroke = false;
    let double = line.draw_composed(&options, 0);
    let single = stroke_of(&single).unwrap();
    let double = stroke_of(&double).unwrap();
    assert_eq!(single.len(), 2);
    assert_eq!(segments(single), 1);
    assert_eq!(double.len(), 4);
    assert_eq!(segments(double), 2);
    // the first pass is the single pass
    assert_eq!(double[..2], single[..]);
}

#[test]
fn single_pass_line_is_the_line_engine_with_a_move_and_no_overlay() {
    let line = Line { start: Point::new(0, 0), end: Point::new(25600, 25600) };
    let mut options = seeded(77);
    options.disable_multistroke = true;
    let ops = line.draw_composed(&options, 0);
    let mut rng = RoughRng::from_seed(77);
    let expected =
        rough_compose::line::line(line.start, line.end, true, false, &options, &mut rng);
    assert_eq!(stroke_of(&ops), Some(&expected));
}

#[test]
fn edge_follows_the_multistroke_option() {
    let mut options = seeded(1);
    let a = Point::new(0, 0);
    let b = Point::new(9000, 100);
    let mut rng = RoughRng::from_seed(1);
    let twice = edge(a, b, &options, &mut rng);
    let mut rng = RoughRng::from_seed(1);
    assert_eq!(twice, rough_compose::line::doubleline(a, b, &options, &mut rng));
    options.disable_multistroke = true;
    let mut rng = RoughRng::from_seed(1);
    let once = edge(a, b, &options, &mut rng);
    let mut rng = RoughRng::from_seed(1);
    assert_eq!(once, rough_compose::line::line(a, b, true, false, &options, &mut rng));
}

#[test]
fn unit_square_is_stroked_in_eight_segments() {
    let options = seeded(42);
    assert!(!options.disable_multistroke);
    assert_eq!(options.stroke_color, Some(Color::black()));
    assert_eq!(options.fill_color, None);
    let square =
        Rectangle { transform: Transform::identity(), half_extents: Point::new(128, 128) };
    let ops = square.draw_composed(&options, 0);
    assert_eq!(ops.len(), 4);
    assert_eq!(ops[0], DrawOp::Save);
    assert_eq!(ops[1], DrawOp::Transform(Transform::identity()));
    assert_eq!(ops[3], DrawOp::Restore);
    assert!(fill_of(&ops).is_none());
    let path = stroke_of(&ops).unwrap();
    assert_eq!(segments(path), 8);
    assert_eq!(path.len(), 16);
    let margin = ROUGH_BOUNDS_MARGIN;
    for p in points_of(path) {
        assert!(-128 - margin <= p.x && p.x <= 128 + margin);
        assert!(-128 - margin <= p.y && p.y <= 128 + margin);
    }
}

#[test]
fn rectangle_edges_are_drawn_one_by_one() {
    let options = seeded(3);
    let half = Point::new(30000, 8000);
    let mut rng = RoughRng::from_seed(3);
    let outline = rectangle_outline(half, &options, &mut rng);
    let c = corners(half);
    assert_eq!(
        c,
        vec![
            Point::new(-30000, -8000),
            Point::new(30000, -8000),
            Point::new(30000, 8000),
            Point::new(-30000, 8000),
        ]
    );
    let mut again = RoughRng::from_seed(3);
    let mut expected = Vec::new();
    for (a, b) in [(c[0], c[1]), (c[1], c[2]), (c[2], c[3]), (c[3], c[0])] {
        expected.extend(edge(a, b, &options, &mut again));
    }
    assert_eq!(outline, expected);
    assert_eq!(rng, again);
}

#[test]
fn still_rectangle_has_exact_corners() {
    let mut options = seeded(3);
    options.roughness = 0;
    options.bowing = 0;
    options.disable_multistroke = true;
    let rect = Rectangle { transform: Transform::identity(), half_extents: Point::new(1000, 500) };
    let ops = rect.draw_composed(&options, 0);
    let path = stroke_of(&ops).unwrap();
    let mut rng = RoughRng::from_seed(3);
    let c = corners(rect.half_extents);
    let mut expected = Vec::new();
    for (a, b) in [(c[0], c[1]), (c[1], c[2]), (c[2], c[3]), (c[3], c[0])] {
        let d = rng.below(201) as i64;
        for _ in 0..10 {
            rng.next_u64();
        }
        expected.push(PathEl::MoveTo(a));
        expected.push(PathEl::CurveTo(
            Point::new(lerp(a.x, b.x, 200 + d, 1000), lerp(a.y, b.y, 200 + d, 1000)),
            Point::new(lerp(a.x, b.x, 400 + 2 * d, 1000), lerp(a.y, b.y, 400 + 2 * d, 1000)),
            b,
        ));
    }
    assert_eq!(*path, expected);
}

#[test]
fn fill_comes_before_stroke() {
    let mut options = seeded(1);
    options.fill_color = Some(RED);
    let shapes = [
        Shape::Rectangle(Rectangle {
            transform: Transform::identity(),
            half_extents: Point::new(30000, 8000),
        }),
        Shape::Ellipse(Ellipse {
            transform: Transform::identity(),
            radii: Point::new(30000, 8000),
        }),
    ];
    for shape in shapes {
        let ops = shape.draw_composed(&options, 0);
        assert_eq!(ops.len(), 5);
        assert_eq!(ops[0], DrawOp::Save);
        assert!(matches!(ops[1], DrawOp::Transform(_)));
        assert!(matches!(ops[2], DrawOp::Fill { color: RED, .. }));
        assert!(matches!(ops[3], DrawOp::Stroke { width: 256, .. }));
        assert_eq!(ops[4], DrawOp::Restore);
    }
}

#[test]
fn fill_alone_is_drawn_without_a_stroke_color() {
    let mut options = seeded(1);
    options.fill_color = Some(RED);
    options.stroke_color = None;
    let rect = Rectangle { transform: Transform::identity(), half_extents: Point::new(30000, 8000) };
    let ops = rect.draw_composed(&options, 0);
    assert_eq!(ops.len(), 4);
    assert!(matches!(ops[2], DrawOp::Fill { .. }));
    assert!(stroke_of(&ops).is_none());
}

#[test]
fn lines_and_curves_are_never_filled() {
    let mut options = seeded(1);
    options.fill_color = Some(RED);
    for shape in all_shapes() {
        let ops = shape.draw_composed(&options, 0);
        match shape {
            Shape::Rectangle(_) | Shape::Ellipse(_) => assert!(fill_of(&ops).is_some()),
            _ => assert!(fill_of(&ops).is_none()),
        }
    }
}

#[test]
fn fill_does_not_move_the_outline() {
    let plain = seeded(8);
    let mut filled = seeded(8);
    filled.fill_color = Some(RED);
    for shape in all_shapes() {
        let a = shape.draw_composed(&plain, 0);
        let b = shape.draw_composed(&filled, 0);
        assert_eq!(stroke_of(&a), stroke_of(&b));
    }
}

#[test]
fn rectangle_fill_goes_on_from_the_outline() {
    let mut options = seeded(8);
    options.fill_color = Some(RED);
    let half = Point::new(30000, 8000);
    let rect = Rectangle { transform: Transform::identity(), half_extents: half };
    let ops = rect.draw_composed(&options, 0);
    let mut rng = RoughRng::from_seed(8);
    let outline = rectangle_outline(half, &options, &mut rng);
    let fill = rough_compose::fill::fill_polygon(corners(half), &options, &mut rng);
    assert_eq!(stroke_of(&ops), Some(&outline));
    assert_eq!(fill_of(&ops), Some(&fill));
    assert!(!fill.is_empty());
}

#[test]
fn ellipse_fill_is_made_from_the_first_pass() {
    let mut options = seeded(8);
    options.fill_color = Some(RED);
    let shape = Ellipse { transform: Transform::identity(), radii: Point::new(2560, 2560) };
    let ops = shape.draw_composed(&options, 0);
    let mut rng = RoughRng::from_seed(8);
    let result = rough_compose::ellipse::ellipse(Point::new(0, 0), 2560, 2560, &options, &mut rng);
    let fill = rough_compose::fill::fill_polygon(result.estimated_points, &options, &mut rng);
    assert_eq!(stroke_of(&ops), Some(&result.bez_path));
    assert_eq!(fill_of(&ops), Some(&fill));
    assert!(!fill.is_empty());
}

#[test]
fn seeded_draw_is_repeatable() {
    let mut options = seeded(1234);
    options.fill_color = Some(RED);
    for shape in all_shapes() {
        let first = shape.draw_composed(&options, 1);
        let second = shape.draw_composed(&options, 2);
        assert_eq!(first, second);
    }
}

#[test]
fn draw_follows_the_seed() {
    let mut a = seeded(1);
    let mut b = seeded(2);
    a.fill_color = Some(RED);
    b.fill_color = Some(RED);
    for shape in all_shapes() {
        let first = shape.draw_composed(&a, 0);
        let second = shape.draw_composed(&b, 0);
        assert_ne!(first, second);
        assert_eq!(first.len(), second.len());
    }
}

#[test]
fn unseeded_draw_follows_the_entropy() {
    let options = RoughOptions::default();
    let line = Line { start: Point::new(0, 0), end: Point::new(25600, 25600) };
    let first = line.draw_composed(&options, 1);
    let second = line.draw_composed(&options, 2);
    assert_ne!(first, second);
    assert_eq!(first, line.draw_composed(&seeded(1), 99));
    assert_eq!(new_rng(None, 1), RoughRng::from_seed(1));
}

#[test]
fn drawn_points_land_in_the_composed_bounds() {
    let mut options = RoughOptions::default();
    options.fill_color = Some(RED);
    options.roughness = 4096;
    options.bowing = 4096;
    options.max_randomness_offset = 65536;
    options.hachure_gap = 2000;
    for shape in all_shapes() {
        let bounds = shape.composed_bounds(&options);
        for seed in 0..25u64 {
            options.seed = Some(seed);
            let ops = shape.draw_composed(&options, 0);
            let points = landed_points(&ops);
            assert!(!points.is_empty());
            for p in points {
                assert!(bounds.contains(p), "{p:?} of {shape:?} outside {bounds:?}");
            }
        }
    }
}

#[test]
fn jitter_never_passes_the_margin() {
    assert!(JITTER_CAP < ROUGH_BOUNDS_MARGIN);
    assert!(rough_compose::line::LINE_JITTER_CAP <= JITTER_CAP);
    assert!(rough_compose::curve::CURVE_JITTER_CAP <= JITTER_CAP);
    assert!(
        rough_compose::ellipse::ELLIPSE_JITTER_CAP + rough_compose::line::LINE_JITTER_CAP
            <= JITTER_CAP
    );
}

#[test]
fn degenerate_shapes_are_drawn() {
    let mut options = seeded(1);
    options.fill_color = Some(RED);
    let p = Point::new(100, 100);
    let shapes = [
        Shape::Line(Line { start: p, end: p }),
        Shape::Rectangle(Rectangle {
            transform: Transform::identity(),
            half_extents: Point::new(0, 0),
        }),
        Shape::Ellipse(Ellipse { transform: Transform::identity(), radii: Point::new(0, 0) }),
        Shape::QuadraticBezier(QuadraticBezier { start: p, cp: p, end: p }),
        Shape::CubicBezier(CubicBezier { start: p, cp1: p, cp2: p, end: p }),
    ];
    for shape in shapes {
        let bounds = shape.composed_bounds(&options);
        let ops = shape.draw_composed(&options, 0);
        assert!(stroke_of(&ops).is_some());
        for q in landed_points(&ops) {
            assert!(bounds.contains(q));
        }
    }
}

#[test]
fn curve_shapes_use_the_curve_generators() {
    let options = seeded(21);
    let quad = QuadraticBezier {
        start: Point::new(0, 0),
        cp: Point::new(30000, 60000),
        end: Point::new(60000, 0),
    };
    let cubic = CubicBezier {
        start: Point::new(0, 0),
        cp1: Point::new(0, 60000),
        cp2: Point::new(60000, 60000),
        end: Point::new(60000, 0),
    };
    let mut rng = RoughRng::from_seed(21);
    let expected =
        rough_compose::curve::quadratic_bezier(quad.start, quad.cp, quad.end, &options, &mut rng);
    assert_eq!(stroke_of(&quad.draw_composed(&options, 0)), Some(&expected));
    let mut rng = RoughRng::from_seed(21);
    let expected = rough_compose::curve::cubic_bezier(
        cubic.start,
        cubic.cp1,
        cubic.cp2,
        cubic.end,
        &options,
        &mut rng,
    );
    assert_eq!(stroke_of(&cubic.draw_composed(&options, 0)), Some(&expected));
}

#[test]
fn saves_and_restores_are_balanced() {
    let mut options = seeded(1);
    options.fill_color = Some(RED);
    for shape in all_shapes() {
        let ops = shape.draw_composed(&options, 0);
        let mut open = 0i32;
        for op in &ops {
            match op {
                DrawOp::Save => open += 1,
                DrawOp::Restore => {
                    assert!(open > 0);
                    open -= 1;
                }
                _ => {}
            }
        }
        assert_eq!(open, 0);
        assert_eq!(ops.first(), Some(&DrawOp::Save));
        assert_eq!(ops.last(), Some(&DrawOp::Restore));
    }
}
