use rough_compose::builders::{
    CubBezBuilder, CubBezBuilderState, EllipseBuilder, FociEllipseBuilder,
    FociEllipseBuilderState, FociPair, LineBuilder, QuadBezBuilder, QuadBezBuilderState,
    RectangleBuilder, INDICATOR_REACH, POS_INDICATOR_OUTLINE_WIDTH, POS_INDICATOR_RADIUS,
};
use rough_compose::compose::{DrawOp, PenState};
use rough_compose::geom::{Aabb, Point, Transform, TRANSFORM_ONE};
use rough_compose::options::{Color, RoughOptions};
use rough_compose::path::PathEl;
use rough_compose::shapes::{CubicBezier, Ellipse, Line, QuadraticBezier};

fn seeded(seed: u64) -> RoughOptions {
    let mut options = RoughOptions::default();
    options.seed = Some(seed);
    options
}

fn pos(state: PenState, pos: Point) -> DrawOp {
    DrawOp::PosIndicator { state, pos }
}

fn vector(state: PenState, start: Point, end: Point) -> DrawOp {
    DrawOp::VecIndicator { state, start, end }
}

fn points_of(path: &[PathEl]) -> Vec<Point> {
    let mut out = Vec::new();
    for el in path {
        match *el {
            PathEl::MoveTo(p) | PathEl::LineTo(p) => out.push(p),
            PathEl::CurveTo(a, b, c) => {
                out.push(a);
                out.push(b);
                out.push(c);
            }
            PathEl::ClosePath => {}
        }
    }
    out
}

fn landed_points(ops: &[DrawOp]) -> Vec<Point> {
    let mut current = Transform::identity();
    let mut saved = Vec::new();
    let mut out = Vec::new();
    for op in ops {
        match op {
            DrawOp::Save => saved.push(current),
            DrawOp::Restore => current = saved.pop().expect("restore without save"),
            DrawOp::Transform(t) => current = *t,
            DrawOp::Fill { path, .. } | DrawOp::Stroke { path, .. } => {
                for p in points_of(path) {
                    out.push(current.apply(p));
                }
            }
            _ => {}
        }
    }
    assert!(saved.is_empty());
    out
}

#[test]
fn indicator_reach_is_radius_and_outline() {
    assert_eq!(POS_INDICATOR_RADIUS, 768);
    assert_eq!(POS_INDICATOR_OUTLINE_WIDTH, 384);
    assert_eq!(INDICATOR_REACH, POS_INDICATOR_RADIUS + POS_INDICATOR_OUTLINE_WIDTH);
}

#[test]
fn line_builder_draws_the_line_and_two_handles() {
    let options = seeded(3);
    let builder = LineBuilder { start: Point::new(0, 0), current: Point::new(9000, 4000) };
    let line = builder.state_as_line();
    assert_eq!(line, Line { start: Point::new(0, 0), end: Point::new(9000, 4000) });
    let mut expected = vec![DrawOp::Save];
    expected.extend(line.draw_composed(&options, 0));
    expected.push(pos(PenState::Up, builder.start));
    expected.push(pos(PenState::Down, builder.current));
    expected.push(DrawOp::Restore);
    assert_eq!(builder.draw_composed(&options, 0), expected);
    assert_eq!(
        builder.composed_bounds(&options),
        line.composed_bounds(&options).loosened(INDICATOR_REACH)
    );
    assert_eq!(
        builder.composed_bounds(&options),
        Aabb { mins: Point::new(-6400, -6400), maxs: Point::new(15400, 10400) }
    );
}

#[test]
fn rectangle_builder_spans_its_two_corners() {
    let builder = RectangleBuilder { start: Point::new(100, 900), current: Point::new(700, 100) };
    let rect = builder.state_as_rect();
    assert_eq!(rect.transform, Transform::translation(Point::new(400, 500)));
    assert_eq!(rect.half_extents, Point::new(300, 400));
    assert_eq!(rect.bounds(), Aabb { mins: Point::new(100, 100), maxs: Point::new(700, 900) });
}

#[test]
fn rectangle_builder_rounds_odd_spans_outwards() {
    let builder = RectangleBuilder { start: Point::new(0, 0), current: Point::new(5, -5) };
    let rect = builder.state_as_rect();
    assert_eq!(rect.transform, Transform::translation(Point::new(2, -2)));
    assert_eq!(rect.half_extents, Point::new(3, 3));
    let bounds = rect.bounds();
    assert!(bounds.contains(builder.start));
    assert!(bounds.contains(builder.current));
}

#[test]
fn rectangle_builder_draws_the_rectangle_and_two_handles() {
    let mut options = seeded(3);
    options.fill_color = Some(Color { r: 0, g: 0, b: 255, a: 255 });
    let builder = RectangleBuilder { start: Point::new(0, 0), current: Point::new(9000, 4000) };
    let rect = builder.state_as_rect();
    let mut expected = vec![DrawOp::Save];
    expected.extend(rect.draw_composed(&options, 0));
    expected.push(pos(PenState::Up, builder.start));
    expected.push(pos(PenState::Down, builder.current));
    expected.push(DrawOp::Restore);
    let ops = builder.draw_composed(&options, 0);
    assert_eq!(ops, expected);
    let bounds = builder.composed_bounds(&options);
    assert_eq!(bounds, rect.composed_bounds(&options).loosened(INDICATOR_REACH));
    for p in landed_points(&ops) {
        assert!(bounds.contains(p));
    }
}

#[test]
fn ellipse_builder_grows_from_its_centre() {
    let options = seeded(3);
    let builder = EllipseBuilder { start: Point::new(1000, 2000), current: Point::new(400, 2900) };
    let ellipse = builder.state_as_ellipse();
    assert_eq!(ellipse.transform, Transform::translation(Point::new(1000, 2000)));
    assert_eq!(ellipse.radii, Point::new(600, 900));
    let mut expected = vec![DrawOp::Save];
    expected.extend(ellipse.draw_composed(&options, 0));
    expected.push(pos(PenState::Up, builder.start));
    expected.push(pos(PenState::Down, builder.current));
    expected.push(DrawOp::Restore);
    let ops = builder.draw_composed(&options, 0);
    assert_eq!(ops, expected);
    let bounds = builder.composed_bounds(&options);
    assert_eq!(bounds, ellipse.composed_bounds(&options).loosened(INDICATOR_REACH));
    for p in landed_points(&ops) {
        assert!(bounds.contains(p));
    }
}

#[test]
fn ellipse_from_foci_and_point() {
    let e = Ellipse::from_foci_and_point(
        Point::new(-300, 0),
        Point::new(300, 0),
        Point::new(0, 400),
    );
    assert_eq!(e.radii, Point::new(500, 400));
    assert_eq!(e.transform, Transform::identity());
}

#[test]
fn ellipse_from_foci_is_turned_towards_the_second_focus() {
    let e = Ellipse::from_foci_and_point(
        Point::new(1000, 1000),
        Point::new(1000, 1600),
        Point::new(1400, 1300),
    );
    assert_eq!(e.radii, Point::new(500, 400));
    assert_eq!(
        e.transform,
        Transform { a: 0, b: -TRANSFORM_ONE, c: TRANSFORM_ONE, d: 0, tx: 1000, ty: 1300 }
    );
    let slanted = Ellipse::from_foci_and_point(
        Point::new(0, 0),
        Point::new(3000, 4000),
        Point::new(0, 0),
    );
    // the foci are 5000 apart; the point is one of them
    assert_eq!(slanted.radii, Point::new(2500, 0));
    assert_eq!(slanted.transform.a, 2457);
    assert_eq!(slanted.transform.c, 3276);
    assert_eq!(slanted.transform.b, -3276);
    assert_eq!(slanted.transform.d, 2457);
    assert_eq!((slanted.transform.tx, slanted.transform.ty), (1500, 2000));
}

#[test]
fn ellipse_from_coinciding_foci_is_a_circle() {
    let e = Ellipse::from_foci_and_point(
        Point::new(50, 50),
        Point::new(50, 50),
        Point::new(50, 350),
    );
    assert_eq!(e.radii, Point::new(300, 300));
    assert_eq!(e.transform, Transform::translation(Point::new(50, 50)));
}

#[test]
fn ellipse_from_foci_never_stretches() {
    let far = 1i64 << 28;
    let cases = [
        (Point::new(-far, -far), Point::new(far, far), Point::new(far, -far)),
        (Point::new(1, 0), Point::new(0, 1), Point::new(5, 5)),
        (Point::new(-7, 31), Point::new(1234, -999), Point::new(0, 0)),
        (Point::new(far, far), Point::new(far - 1, far), Point::new(-far, -far)),
    ];
    for (first, second, point) in cases {
        let e = Ellipse::from_foci_and_point(first, second, point);
        let t = e.transform;
        assert!(t.a * t.a + t.b * t.b <= TRANSFORM_ONE * TRANSFORM_ONE);
        assert!(t.c * t.c + t.d * t.d <= TRANSFORM_ONE * TRANSFORM_ONE);
        assert!(e.radii.x >= e.radii.y && e.radii.y >= 0);
        assert!(e.radii.x <= 1 << 30);
    }
}

#[test]
fn foci_builder_with_one_focus() {
    let options = seeded(3);
    let p = Point::new(500, 600);
    let builder = FociEllipseBuilder { state: FociEllipseBuilderState::First(p) };
    assert_eq!(
        builder.draw_composed(&options, 0),
        vec![DrawOp::Save, pos(PenState::Down, p), DrawOp::Restore]
    );
    let reach = 256 + 1152;
    assert_eq!(
        builder.composed_bounds(&options),
        Aabb { mins: Point::new(500 - reach, 600 - reach), maxs: Point::new(500 + reach, 600 + reach) }
    );
}

#[test]
fn foci_builder_with_two_foci() {
    let options = seeded(3);
    let foci = FociPair { first: Point::new(500, 600), second: Point::new(-100, 900) };
    let builder = FociEllipseBuilder { state: FociEllipseBuilderState::Foci(foci) };
    assert_eq!(
        builder.draw_composed(&options, 0),
        vec![
            DrawOp::Save,
            pos(PenState::Up, foci.first),
            pos(PenState::Up, foci.second),
            DrawOp::Restore,
        ]
    );
    let reach = 256 + 1152;
    assert_eq!(
        builder.composed_bounds(&options),
        Aabb { mins: Point::new(-100 - reach, 600 - reach), maxs: Point::new(500 + reach, 900 + reach) }
    );
}

#[test]
fn foci_builder_with_the_ellipse_given() {
    let mut options = seeded(3);
    options.fill_color = Some(Color { r: 0, g: 255, b: 0, a: 255 });
    let foci = FociPair { first: Point::new(-30000, 0), second: Point::new(30000, 10000) };
    let point = Point::new(0, 40000);
    let builder = FociEllipseBuilder {
        state: FociEllipseBuilderState::FociAndPoint { foci, point },
    };
    let ellipse = Ellipse::from_foci_and_point(foci.first, foci.second, point);
    let mut expected = vec![DrawOp::Save, DrawOp::Save];
    expected.extend(ellipse.draw_composed(&options, 0));
    expected.push(DrawOp::Restore);
    expected.push(vector(PenState::Down, foci.first, point));
    expected.push(vector(PenState::Down, foci.second, point));
    expected.push(pos(PenState::Up, foci.first));
    expected.push(pos(PenState::Up, foci.second));
    expected.push(pos(PenState::Down, point));
    expected.push(DrawOp::Restore);
    let ops = builder.draw_composed(&options, 0);
    assert_eq!(ops, expected);
    let bounds = builder.composed_bounds(&options);
    assert_eq!(bounds, ellipse.composed_bounds(&options).loosened(INDICATOR_REACH));
    for p in landed_points(&ops) {
        assert!(bounds.contains(p), "{p:?}");
    }
}

#[test]
fn quad_builder_states() {
    let options = seeded(3);
    let start = Point::new(0, 0);
    let cp = Point::new(3000, 6000);
    let end = Point::new(6000, 0);
    let first = QuadBezBuilder { state: QuadBezBuilderState::Start(start) };
    assert_eq!(first.draw_composed(&options, 0), vec![pos(PenState::Down, start)]);
    let reach = 256 + 1152;
    assert_eq!(
        first.composed_bounds(&options),
        Aabb { mins: Point::new(-reach, -reach), maxs: Point::new(reach, reach) }
    );

    let second = QuadBezBuilder { state: QuadBezBuilderState::Cp { start, cp } };
    assert_eq!(
        second.draw_composed(&options, 0),
        vec![vector(PenState::Down, start, cp), pos(PenState::Up, start), pos(PenState::Down, cp)]
    );
    assert_eq!(
        second.composed_bounds(&options),
        Aabb { mins: Point::new(-reach, -reach), maxs: Point::new(3000 + reach, 6000 + reach) }
    );

    let third = QuadBezBuilder { state: QuadBezBuilderState::End { start, cp, end } };
    let quad = QuadraticBezier { start, cp, end };
    let mut expected = quad.draw_composed(&options, 0);
    expected.push(vector(PenState::Down, start, cp));
    expected.push(pos(PenState::Up, start));
    expected.push(pos(PenState::Up, cp));
    expected.push(pos(PenState::Down, end));
    assert_eq!(third.draw_composed(&options, 0), expected);
    assert_eq!(
        third.composed_bounds(&options),
        quad.composed_bounds(&options).loosened(INDICATOR_REACH)
    );
}

#[test]
fn cubic_builder_states() {
    let options = seeded(3);
    let start = Point::new(0, 0);
    let cp1 = Point::new(0, 6000);
    let cp2 = Point::new(6000, 6000);
    let end = Point::new(6000, 0);
    let reach = 256 + 1152;

    let first = CubBezBuilder { state: CubBezBuilderState::Start(start) };
    assert_eq!(first.draw_composed(&options, 0), vec![pos(PenState::Down, start)]);
    assert_eq!(
        first.composed_bounds(&options),
        Aabb { mins: Point::new(-reach, -reach), maxs: Point::new(reach, reach) }
    );

    let second = CubBezBuilder { state: CubBezBuilderState::Cp1 { start, cp1 } };
    assert_eq!(
        second.draw_composed(&options, 0),
        vec![
            vector(PenState::Down, start, cp1),
            pos(PenState::Up, start),
            pos(PenState::Down, cp1),
        ]
    );
    assert_eq!(
        second.composed_bounds(&options),
        Aabb { mins: Point::new(-reach, -reach), maxs: Point::new(reach, 6000 + reach) }
    );

    let third = CubBezBuilder { state: CubBezBuilderState::Cp2 { start, cp1, cp2 } };
    let quad = QuadraticBezier { start, cp: cp1, end: cp2 };
    let mut expected = quad.draw_composed(&options, 0);
    expected.push(vector(PenState::Down, start, cp1));
    expected.push(pos(PenState::Up, start));
    expected.push(pos(PenState::Up, cp1));
    expected.push(pos(PenState::Down, cp2));
    assert_eq!(third.draw_composed(&options, 0), expected);
    assert_eq!(
        third.composed_bounds(&options),
        quad.composed_bounds(&options).loosened(INDICATOR_REACH)
    );

    let fourth = CubBezBuilder { state: CubBezBuilderState::End { start, cp1, cp2, end } };
    let cubic = CubicBezier { start, cp1, cp2, end };
    let mut expected = cubic.draw_composed(&options, 0);
    expected.push(vector(PenState::Down, start, cp1));
    expected.push(vector(PenState::Down, cp2, end));
    expected.push(pos(PenState::Up, start));
    expected.push(pos(PenState::Up, cp1));
    expected.push(pos(PenState::Up, cp2));
    expected.push(pos(PenState::Down, end));
    assert_eq!(fourth.draw_composed(&options, 0), expected);
    assert_eq!(
        fourth.composed_bounds(&options),
        cubic.composed_bounds(&options).loosened(INDICATOR_REACH)
    );
}

#[test]
fn builders_are_repeatable() {
    let options = seeded(17);
    let builder = RectangleBuilder { start: Point::new(0, 0), current: Point::new(9000, 4000) };
    assert_eq!(builder.draw_composed(&options, 5), builder.draw_composed(&options, 6));
    let foci = FociPair { first: Point::new(-30000, 0), second: Point::new(30000, 10000) };
    let builder = FociEllipseBuilder {
        state: FociEllipseBuilderState::FociAndPoint { foci, point: Point::new(0, 40000) },
    };
    assert_eq!(builder.draw_composed(&options, 5), builder.draw_composed(&options, 6));
}

#[test]
fn builder_saves_and_restores_are_balanced() {
    let options = seeded(17);
    let foci = FociPair { first: Point::new(-30000, 0), second: Point::new(30000, 10000) };
    let plans = [
        LineBuilder { start: Point::new(0, 0), current: Point::new(900, 400) }
            .draw_composed(&options, 0),
        RectangleBuilder { start: Point::new(0, 0), current: Point::new(900, 400) }
            .draw_composed(&options, 0),
        EllipseBuilder { start: Point::new(0, 0), current: Point::new(900, 400) }
            .draw_composed(&options, 0),
        FociEllipseBuilder { state: FociEllipseBuilderState::First(foci.first) }
            .draw_composed(&options, 0),
        FociEllipseBuilder { state: FociEllipseBuilderState::Foci(foci) }
            .draw_composed(&options, 0),
        FociEllipseBuilder {
            state: FociEllipseBuilderState::FociAndPoint { foci, point: Point::new(0, 40000) },
        }
        .draw_composed(&options, 0),
        QuadBezBuilder {
            state: QuadBezBuilderState::End {
                start: Point::new(0, 0),
                cp: Point::new(10, 10),
                end: Point::new(20, 0),
            },
        }
        .draw_composed(&options, 0),
        CubBezBuilder {
            state: CubBezBuilderState::Cp2 {
                start: Point::new(0, 0),
                cp1: Point::new(10, 10),
                cp2: Point::new(20, 0),
            },
        }
        .draw_composed(&options, 0),
    ];
    for ops in plans {
        let mut open = 0i32;
        for op in &ops {
            match op {
                DrawOp::Save => open += 1,
                DrawOp::Restore => {
                    assert!(open > 0);
                    open -= 1;
                }
                _ => {}
            }
        }
        assert_eq!(open, 0);
    }
}
