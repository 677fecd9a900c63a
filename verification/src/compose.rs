//! The composition layer: for each primitive, the loosened bounds of its
//! rough rendering and the drawing steps that render it.
//!
//! A draw call makes one random source from the seed of the options, runs
//! the generators on it in a fixed order, and hands back the steps for the
//! painting backend: the fill, where a fill colour is set, before the
//! outline, where a stroke colour is set.

use vstd::prelude::*;
use crate::arith::{spec_abs, COORD_MAX};
use crate::curve::{cubic_bezier, lemma_curve_within, quadratic_bezier, spec_cubic_bezier,
    spec_curve_segments, spec_quadratic_bezier, Controls, CURVE_JITTER_CAP};
use crate::ellipse::{ellipse, lemma_ellipse_within, points_within, spec_ellipse,
    spec_sample_count, EllipseResult, ELLIPSE_JITTER_CAP};
use crate::fill::{all_in_range, fill_polygon, lemma_fill_polygon_within, lemma_hull_within,
    spec_fill_polygon, spec_hull};
use crate::geom::{spec_div_to_zero, spec_div_up, Aabb, Point, Region, Transform, TRANSFORM_ONE};
use crate::line::{doubleline, lemma_doubleline_properties, lemma_line_properties, line,
    spec_doubleline, spec_line, LINE_JITTER_CAP};
use crate::options::{Color, RoughOptions, ROUGH_BOUNDS_MARGIN};
use crate::path::{lemma_path_within_concat, lemma_path_within_wider, lemma_segment_count_concat,
    path_within, segment_count, PathEl};
use crate::rng::{new_rng, spec_new_rng, RoughRng};
use crate::shapes::{CubicBezier, Ellipse, Line, QuadraticBezier, Rectangle, Shape};

verus! {

/// Farthest that any point of a rough path lies, on one axis, from the exact
/// bounds of its primitive in the primitive's own frame. It is 14 pixels.
pub const JITTER_CAP: i64 = 3584;

/// Whether the pen touches the surface; it picks the look of an indicator.
#[derive(Clone, Copy, Debug, PartialEq, Eq, Structural)]
pub enum PenState {
    /// The pen is away from the surface.
    Up,
    /// The pen hovers over the surface.
    Proximity,
    /// The pen touches the surface.
    Down,
}

/// One step for the painting backend.
#[derive(Debug, PartialEq, Eq)]
pub enum DrawOp {
    /// Remember the current transform.
    Save,
    /// Go back to the transform remembered last.
    Restore,
    /// Draw what follows under this transform.
    Transform(Transform),
    /// Fill the path.
    Fill {
        /// The path to fill.
        path: Vec<PathEl>,
        /// The colour of the fill.
        color: Color,
    },
    /// Stroke the path.
    Stroke {
        /// The path to stroke.
        path: Vec<PathEl>,
        /// The colour of the stroke.
        color: Color,
        /// The width of the stroke, in units.
        width: i64,
    },
    /// Mark a position with a handle.
    PosIndicator {
        /// The look of the handle.
        state: PenState,
        /// The position to mark.
        pos: Point,
    },
    /// Mark a vector with a thin line.
    VecIndicator {
        /// The look of the line.
        state: PenState,
        /// Where the vector starts.
        start: Point,
        /// Where the vector ends.
        end: Point,
    },
}

/// The mathematical value of a [`DrawOp`].
pub enum DrawStep {
    /// Remember the current transform.
    Save,
    /// Go back to the transform remembered last.
    Restore,
    /// Draw what follows under this transform.
    Transform(Transform),
    /// Fill the path.
    Fill { path: Seq<PathEl>, color: Color },
    /// Stroke the path.
    Stroke { path: Seq<PathEl>, color: Color, width: int },
    /// Mark a position with a handle.
    PosIndicator { state: PenState, pos: Point },
    /// Mark a vector with a thin line.
    VecIndicator { state: PenState, start: Point, end: Point },
}

impl View for DrawOp {
    type V = DrawStep;

    open spec fn view(&self) -> DrawStep {
        match *self {
            DrawOp::Save => DrawStep::Save,
            DrawOp::Restore => DrawStep::Restore,
            DrawOp::Transform(t) => DrawStep::Transform(t),
            DrawOp::Fill { path, color } => DrawStep::Fill { path: path@, color },
            DrawOp::Stroke { path, color, width } => DrawStep::Stroke {
                path: path@,
                color,
                width: width as int,
            },
            DrawOp::PosIndicator { state, pos } => DrawStep::PosIndicator { state, pos },
            DrawOp::VecIndicator { state, start, end } => DrawStep::VecIndicator {
                state,
                start,
                end,
            },
        }
    }
}

/// The commands of a path that may be missing.
pub open spec fn path_model(path: Option<Vec<PathEl>>) -> Option<Seq<PathEl>> {
    match path {
        Some(p) => Some(p@),
        None => None,
    }
}

/// The mathematical values of a list of drawing steps.
pub open spec fn steps(ops: Seq<DrawOp>) -> Seq<DrawStep> {
    Seq::new(ops.len(), |i: int| ops[i]@)
}

/// Whether the image of `p` under `transform`, or `p` itself where there is
/// none, lies in `region`.
pub open spec fn point_lands_within(p: Point, transform: Option<Transform>, region: Region) -> bool {
    match transform {
        Some(t) => region.holds(
            t.spec_apply_x(p.x as int, p.y as int),
            t.spec_apply_y(p.x as int, p.y as int),
        ),
        None => region.contains(p),
    }
}

/// Whether every point of the command, drawn under `transform`, lies in `region`.
pub open spec fn el_lands_within(el: PathEl, transform: Option<Transform>, region: Region) -> bool {
    match el {
        PathEl::MoveTo(p) => point_lands_within(p, transform, region),
        PathEl::LineTo(p) => point_lands_within(p, transform, region),
        PathEl::CurveTo(c1, c2, p) => point_lands_within(c1, transform, region)
            && point_lands_within(c2, transform, region) && point_lands_within(
            p,
            transform,
            region,
        ),
        PathEl::ClosePath => true,
    }
}

/// Whether every point of the path, drawn under `transform`, lies in `region`.
pub open spec fn path_lands_within(path: Seq<PathEl>, transform: Option<Transform>, region: Region) -> bool {
    forall|i: int| 0 <= i < path.len() ==> el_lands_within(#[trigger] path[i], transform, region)
}

/// Whether every path that the steps fill or stroke, drawn under
/// `transform`, lies in `region`.
pub open spec fn plan_lands_within(plan: Seq<DrawStep>, transform: Option<Transform>, region: Region) -> bool {
    forall|i: int|
        0 <= i < plan.len() ==> match #[trigger] plan[i] {
            DrawStep::Fill { path, color } => path_lands_within(path, transform, region),
            DrawStep::Stroke { path, color, width } => path_lands_within(path, transform, region),
            _ => true,
        }
}

/// Whether every fill among the steps comes before every stroke.
pub open spec fn fill_precedes_stroke(plan: Seq<DrawStep>) -> bool {
    forall|i: int, j: int|
        0 <= i < plan.len() && 0 <= j < plan.len() && plan[i] is Fill && plan[j] is Stroke ==> i
            < j
}

/// Number of segments in the paths that the steps stroke.
pub open spec fn stroked_segments(plan: Seq<DrawStep>) -> nat
    decreases plan.len(),
{
    if plan.len() == 0 {
        0
    } else {
        stroked_segments(plan.drop_last()) + match plan.last() {
            DrawStep::Stroke { path, color, width } => segment_count(path),
            _ => 0nat,
        }
    }
}

/// Number of fills among the steps.
pub open spec fn fill_steps(plan: Seq<DrawStep>) -> nat
    decreases plan.len(),
{
    if plan.len() == 0 {
        0
    } else {
        fill_steps(plan.drop_last()) + if plan.last() is Fill {
            1nat
        } else {
            0nat
        }
    }
}

/// How many saves are open after one more step, where `open` were open
/// before it; `None` where the step is a restore and no save is open.
pub open spec fn spec_after_step(step: DrawStep, open: int) -> Option<int> {
    match step {
        DrawStep::Save => Some(open + 1),
        DrawStep::Restore => if open <= 0 {
            None
        } else {
            Some(open - 1)
        },
        _ => Some(open),
    }
}

/// How many saves are open after the steps, where `open` were open before
/// them; `None` where a restore comes while no save is open.
pub open spec fn spec_open_saves(plan: Seq<DrawStep>, open: int) -> Option<int>
    decreases plan.len(),
{
    if plan.len() == 0 {
        Some(open)
    } else {
        match spec_after_step(plan[0], open) {
            Some(next) => spec_open_saves(plan.drop_first(), next),
            None => None,
        }
    }
}

/// Whether every restore among the steps goes back to a save before it, and
/// no save is left open at the end.
pub open spec fn saves_balanced(plan: Seq<DrawStep>) -> bool {
    spec_open_saves(plan, 0) == Some(0int)
}

/// Whether no step of the list is a save or a restore.
pub open spec fn no_saves(plan: Seq<DrawStep>) -> bool {
    forall|i: int| 0 <= i < plan.len() ==> !(#[trigger] plan[i] is Save) && !(plan[i] is Restore)
}

/// The saves open after two lists of steps are those open after the second,
/// counted from those open after the first.
pub proof fn lemma_open_saves_concat(first: Seq<DrawStep>, second: Seq<DrawStep>, open: int)
    ensures
        spec_open_saves(first + second, open) == match spec_open_saves(first, open) {
            Some(mid) => spec_open_saves(second, mid),
            None => None,
        },
    decreases first.len(),
{
    if first.len() == 0 {
        assert(first + second =~= second);
    } else {
        assert((first + second)[0] == first[0]);
        assert((first + second).drop_first() =~= first.drop_first() + second);
        match spec_after_step(first[0], open) {
            Some(next) => {
                lemma_open_saves_concat(first.drop_first(), second, next);
            },
            None => {},
        }
    }
}

/// The saves open after a list of steps and one more step.
pub proof fn lemma_open_saves_push(plan: Seq<DrawStep>, step: DrawStep, open: int)
    ensures
        spec_open_saves(plan.push(step), open) == match spec_open_saves(plan, open) {
            Some(mid) => spec_after_step(step, mid),
            None => None,
        },
{
    let last = seq![step];
    assert(plan.push(step) =~= plan + last);
    lemma_open_saves_concat(plan, last, open);
    assert(last.drop_first() =~= Seq::<DrawStep>::empty());
    assert forall|mid: int| spec_open_saves(last, mid) == spec_after_step(step, mid) by {
        assert(last[0] == step);
        match spec_after_step(step, mid) {
            Some(next) => {
                assert(spec_open_saves(last.drop_first(), next) == Some(next));
            },
            None => {},
        }
    }
}

/// Steps that leave as many saves open as they found leave, with more saves
/// open before them, as many more open behind them.
pub proof fn lemma_open_saves_raised(plan: Seq<DrawStep>, open: int, by: int)
    requires
        by >= 0,
        spec_open_saves(plan, open) is Some,
    ensures
        spec_open_saves(plan, open + by) == Some(spec_open_saves(plan, open)->0 + by),
    decreases plan.len(),
{
    if plan.len() > 0 {
        let next = spec_after_step(plan[0], open)->0;
        lemma_open_saves_raised(plan.drop_first(), next, by);
    }
}

/// Steps without a save or a restore leave the open saves as they are.
pub proof fn lemma_open_saves_unchanged(plan: Seq<DrawStep>, open: int)
    requires
        no_saves(plan),
    ensures
        spec_open_saves(plan, open) == Some(open),
    decreases plan.len(),
{
    if plan.len() > 0 {
        assert(!(plan[0] is Save) && !(plan[0] is Restore));
        assert forall|i: int| 0 <= i < plan.drop_first().len() implies !(
        #[trigger] plan.drop_first()[i] is Save) && !(plan.drop_first()[i] is Restore) by {
            assert(plan.drop_first()[i] == plan[i + 1]);
        }
        lemma_open_saves_unchanged(plan.drop_first(), open);
    }
}

/// Balanced steps between steps that open `depth` saves and steps that close
/// them are balanced as a whole.
pub proof fn lemma_wrapped_balanced(
    before: Seq<DrawStep>,
    inner: Seq<DrawStep>,
    after: Seq<DrawStep>,
    depth: int,
)
    requires
        depth >= 0,
        spec_open_saves(before, 0) == Some(depth),
        saves_balanced(inner),
        spec_open_saves(after, depth) == Some(0int),
    ensures
        saves_balanced(before + inner + after),
{
    lemma_open_saves_raised(inner, 0, depth);
    lemma_open_saves_concat(before, inner, 0);
    lemma_open_saves_concat(before + inner, after, 0);
}

/// Whether a transform stretches no displacement within the jitter cap
/// beyond the bounds margin: on each axis the two entries that feed it, taken
/// without sign and added, times the cap, are no more than the margin times
/// [`TRANSFORM_ONE`]. Every rotation, mirror and translation does; so does
/// every map that shrinks.
pub open spec fn keeps_margin(t: Transform) -> bool {
    &&& (spec_abs(t.a as int) + spec_abs(t.b as int)) * JITTER_CAP <= TRANSFORM_ONE
        * ROUGH_BOUNDS_MARGIN
    &&& (spec_abs(t.c as int) + spec_abs(t.d as int)) * JITTER_CAP <= TRANSFORM_ONE
        * ROUGH_BOUNDS_MARGIN
}

/// The steps that paint one primitive: a save; the transform, where the
/// primitive has one; the fill, where there is a fill path and a fill colour;
/// the outline, where there is a stroke colour; a restore.
pub open spec fn spec_plan(
    transform: Option<Transform>,
    outline: Seq<PathEl>,
    fill: Option<Seq<PathEl>>,
    options: RoughOptions,
) -> Seq<DrawStep> {
    let saved = seq![DrawStep::Save];
    let placed = match transform {
        Some(t) => saved.push(DrawStep::Transform(t)),
        None => saved,
    };
    let filled = match (fill, options.fill_color) {
        (Some(path), Some(color)) => placed.push(DrawStep::Fill { path, color }),
        _ => placed,
    };
    let stroked = match options.stroke_color {
        Some(color) => filled.push(
            DrawStep::Stroke { path: outline, color, width: options.stroke_width as int },
        ),
        None => filled,
    };
    stroked.push(DrawStep::Restore)
}

/// One edge of a primitive: a rough line drawn twice, or once where
/// multistroke is disabled; and the random source after it.
pub open spec fn spec_edge(a: Point, b: Point, options: RoughOptions, rng: RoughRng) -> (
    Seq<PathEl>,
    RoughRng,
) {
    if !options.disable_multistroke {
        spec_doubleline(a, b, options, rng)
    } else {
        spec_line(a, b, true, false, options, rng)
    }
}

/// Number of segments of one edge: two passes, or one where multistroke is
/// disabled.
pub open spec fn spec_edge_segments(options: RoughOptions) -> nat {
    if options.disable_multistroke {
        1
    } else {
        2
    }
}

/// The corners of the box that reaches `half` from the origin: top left, top
/// right, bottom right, bottom left.
pub open spec fn spec_corners(half: Point) -> Seq<Point> {
    seq![
        Point { x: (-half.x) as i64, y: (-half.y) as i64 },
        Point { x: half.x, y: (-half.y) as i64 },
        Point { x: half.x, y: half.y },
        Point { x: (-half.x) as i64, y: half.y },
    ]
}

/// The outline of a rectangle, each of its four edges drawn on its own: top,
/// right, bottom, left; and the random source after it.
pub open spec fn spec_rectangle_outline(half: Point, options: RoughOptions, rng: RoughRng) -> (
    Seq<PathEl>,
    RoughRng,
) {
    let c = spec_corners(half);
    let (top, r1) = spec_edge(c[0], c[1], options, rng);
    let (right, r2) = spec_edge(c[1], c[2], options, r1);
    let (bottom, r3) = spec_edge(c[2], c[3], options, r2);
    let (left, r4) = spec_edge(c[3], c[0], options, r3);
    (top + right + bottom + left, r4)
}

/// The values of a list of steps with one more step are the values of the
/// list with the value of the step behind them.
pub proof fn lemma_steps_push(ops: Seq<DrawOp>, op: DrawOp)
    ensures
        steps(ops.push(op)) == steps(ops).push(op@),
{
    assert(steps(ops.push(op)) =~= steps(ops).push(op@));
}

/// A path that lies in a box lands in it where no transform is set.
pub proof fn lemma_lands_untransformed(path: Seq<PathEl>, region: Region)
    requires
        path_within(path, region),
    ensures
        path_lands_within(path, None, region),
{
    assert forall|i: int| 0 <= i < path.len() implies el_lands_within(
        #[trigger] path[i],
        None,
        region,
    ) by {
        assert(path[i].within(region));
    }
}

/// On one axis: where a point lies within the jitter cap of a box round the
/// origin, and the transform keeps the margin, the image of the point lies
/// within the margin of the image of the box.
pub proof fn lemma_axis_lands(a: int, b: int, px: int, py: int, hx: int, hy: int)
    requires
        0 <= hx,
        0 <= hy,
        spec_abs(px) <= hx + JITTER_CAP,
        spec_abs(py) <= hy + JITTER_CAP,
        (spec_abs(a) + spec_abs(b)) * JITTER_CAP <= TRANSFORM_ONE * ROUGH_BOUNDS_MARGIN,
    ensures
        spec_abs(spec_div_to_zero(a * px + b * py, TRANSFORM_ONE as int)) <= spec_div_up(
            spec_abs(a) * hx + spec_abs(b) * hy,
            TRANSFORM_ONE as int,
        ) + ROUGH_BOUNDS_MARGIN,
{
    let ua = spec_abs(a);
    let ub = spec_abs(b);
    let n = a * px + b * py;
    let m1 = ua * hx + ub * hy;
    assert(spec_abs(a * px) <= ua * (hx + 3584)) by (nonlinear_arith)
        requires
            ua == spec_abs(a),
            spec_abs(px) <= hx + 3584,
            0 <= hx,
    ;
    assert(spec_abs(b * py) <= ub * (hy + 3584)) by (nonlinear_arith)
        requires
            ub == spec_abs(b),
            spec_abs(py) <= hy + 3584,
            0 <= hy,
    ;
    assert(ua * (hx + 3584) + ub * (hy + 3584) == m1 + (ua + ub) * 3584) by (nonlinear_arith)
        requires
            m1 == ua * hx + ub * hy,
    ;
    assert(0 <= m1) by (nonlinear_arith)
        requires
            m1 == ua * hx + ub * hy,
            0 <= ua,
            0 <= ub,
            0 <= hx,
            0 <= hy,
    ;
    let un = spec_abs(n);
    assert(un <= m1 + 4096 * 5120);
    assert(un / 4096 <= (m1 + 4095) / 4096 + 5120) by (nonlinear_arith)
        requires
            0 <= un <= m1 + 4096 * 5120,
            0 <= m1,
    ;
}

/// Where a path lies within the jitter cap of a box round the origin, and
/// the transform keeps the margin, the path drawn under the transform lies in
/// the image box loosened by at least the bounds margin.
pub proof fn lemma_lands_transformed(
    path: Seq<PathEl>,
    t: Transform,
    hx: int,
    hy: int,
    amount: int,
)
    requires
        0 <= hx,
        0 <= hy,
        keeps_margin(t),
        amount >= ROUGH_BOUNDS_MARGIN,
        path_within(
            path,
            Region::around(Point { x: 0, y: 0 }, hx, hy).loosened(JITTER_CAP as int),
        ),
    ensures
        path_lands_within(path, Some(t), t.spec_image_box(hx, hy).loosened(amount)),
{
    reveal(Transform::spec_reach_x);
    reveal(Transform::spec_reach_y);
    let local = Region::around(Point { x: 0, y: 0 }, hx, hy).loosened(JITTER_CAP as int);
    let target = t.spec_image_box(hx, hy).loosened(amount);
    assert forall|p: Point| local.contains(p) implies point_lands_within(p, Some(t), target) by {
        lemma_axis_lands(t.a as int, t.b as int, p.x as int, p.y as int, hx, hy);
        lemma_axis_lands(t.c as int, t.d as int, p.x as int, p.y as int, hx, hy);
    }
    assert forall|i: int| 0 <= i < path.len() implies el_lands_within(
        #[trigger] path[i],
        Some(t),
        target,
    ) by {
        assert(path[i].within(local));
    }
}

/// What holds of the steps that paint one primitive: every fill comes before
/// every stroke; there is a fill exactly where there is a fill path and a
/// fill colour; the outline is stroked exactly where there is a stroke
/// colour; and where outline and fill land in a box, the steps do.
pub proof fn lemma_plan_properties(
    transform: Option<Transform>,
    outline: Seq<PathEl>,
    fill: Option<Seq<PathEl>>,
    options: RoughOptions,
    region: Region,
)
    ensures
        fill_precedes_stroke(spec_plan(transform, outline, fill, options)),
        saves_balanced(spec_plan(transform, outline, fill, options)),
        fill_steps(spec_plan(transform, outline, fill, options)) == if fill is Some
            && options.fill_color is Some {
            1nat
        } else {
            0nat
        },
        stroked_segments(spec_plan(transform, outline, fill, options))
            == if options.stroke_color is Some {
            segment_count(outline)
        } else {
            0nat
        },
        (path_lands_within(outline, transform, region) && (fill is Some ==> path_lands_within(
            fill->0,
            transform,
            region,
        ))) ==> plan_lands_within(spec_plan(transform, outline, fill, options), transform, region),
{
    let saved = seq![DrawStep::Save];
    let placed = match transform {
        Some(t) => saved.push(DrawStep::Transform(t)),
        None => saved,
    };
    let filled = match (fill, options.fill_color) {
        (Some(path), Some(color)) => placed.push(DrawStep::Fill { path, color }),
        _ => placed,
    };
    let stroked = match options.stroke_color {
        Some(color) => filled.push(
            DrawStep::Stroke { path: outline, color, width: options.stroke_width as int },
        ),
        None => filled,
    };
    let plan = stroked.push(DrawStep::Restore);
    assert(plan == spec_plan(transform, outline, fill, options));
    assert(spec_open_saves(saved, 0) == Some(1int)) by {
        lemma_open_saves_push(Seq::<DrawStep>::empty(), DrawStep::Save, 0);
        assert(Seq::<DrawStep>::empty().push(DrawStep::Save) =~= saved);
    }
    assert(spec_open_saves(placed, 0) == Some(1int)) by {
        if transform is Some {
            lemma_open_saves_push(saved, DrawStep::Transform(transform->0), 0);
        }
    }
    assert(spec_open_saves(filled, 0) == Some(1int)) by {
        if fill is Some && options.fill_color is Some {
            lemma_open_saves_push(
                placed,
                DrawStep::Fill { path: fill->0, color: options.fill_color->0 },
                0,
            );
        }
    }
    assert(spec_open_saves(stroked, 0) == Some(1int)) by {
        if options.stroke_color is Some {
            lemma_open_saves_push(
                filled,
                DrawStep::Stroke {
                    path: outline,
                    color: options.stroke_color->0,
                    width: options.stroke_width as int,
                },
                0,
            );
        }
    }
    lemma_open_saves_push(stroked, DrawStep::Restore, 0);
    assert(saved.drop_last() =~= Seq::<DrawStep>::empty());
    assert(fill_steps(saved) == 0 && stroked_segments(saved) == 0) by {
        reveal_with_fuel(fill_steps, 2);
        reveal_with_fuel(stroked_segments, 2);
    }
    assert(fill_steps(placed) == 0 && stroked_segments(placed) == 0) by {
        if transform is Some {
            assert(placed.drop_last() =~= saved);
        }
    }
    assert(forall|i: int| 0 <= i < placed.len() ==> !(placed[i] is Fill) && !(placed[i] is Stroke));
    assert(stroked_segments(filled) == 0 && fill_steps(filled) == if fill is Some
        && options.fill_color is Some {
        1nat
    } else {
        0nat
    }) by {
        if fill is Some && options.fill_color is Some {
            assert(filled.drop_last() =~= placed);
        }
    }
    assert(forall|i: int| 0 <= i < filled.len() ==> !(filled[i] is Stroke));
    assert(fill_steps(stroked) == fill_steps(filled) && stroked_segments(stroked)
        == if options.stroke_color is Some {
        segment_count(outline)
    } else {
        0nat
    }) by {
        if options.stroke_color is Some {
            assert(stroked.drop_last() =~= filled);
        }
    }
    assert(plan.drop_last() =~= stroked);
    assert forall|i: int, j: int|
        0 <= i < plan.len() && 0 <= j < plan.len() && plan[i] is Fill && plan[j] is Stroke implies i
        < j by {
        assert(j < stroked.len());
        assert(i < filled.len());
        assert(stroked[j] is Stroke);
        assert(j >= filled.len());
    }
}

/// Whether a step paints no path: it is neither a fill nor a stroke.
pub open spec fn is_mark(step: DrawStep) -> bool {
    !(step is Fill) && !(step is Stroke)
}

/// Whether no step of the list paints a path.
pub open spec fn all_marks(plan: Seq<DrawStep>) -> bool {
    forall|i: int| 0 <= i < plan.len() ==> is_mark(#[trigger] plan[i])
}

/// The values of two lists of steps, one after the other, are the values of
/// the first followed by those of the second.
pub proof fn lemma_steps_concat(first: Seq<DrawOp>, second: Seq<DrawOp>)
    ensures
        steps(first + second) == steps(first) + steps(second),
{
    assert(steps(first + second) =~= steps(first) + steps(second));
}

/// A path that lands in a box lands in every box around that box.
pub proof fn lemma_path_lands_wider(
    path: Seq<PathEl>,
    transform: Option<Transform>,
    inner: Region,
    outer: Region,
)
    requires
        path_lands_within(path, transform, inner),
        inner.within(outer),
    ensures
        path_lands_within(path, transform, outer),
{
    assert forall|i: int| 0 <= i < path.len() implies el_lands_within(
        #[trigger] path[i],
        transform,
        outer,
    ) by {
        assert(el_lands_within(path[i], transform, inner));
    }
}

/// Steps that land in a box land in every box around that box.
pub proof fn lemma_plan_lands_wider(
    plan: Seq<DrawStep>,
    transform: Option<Transform>,
    inner: Region,
    outer: Region,
)
    requires
        plan_lands_within(plan, transform, inner),
        inner.within(outer),
    ensures
        plan_lands_within(plan, transform, outer),
{
    assert forall|i: int| 0 <= i < plan.len() implies match #[trigger] plan[i] {
        DrawStep::Fill { path, color } => path_lands_within(path, transform, outer),
        DrawStep::Stroke { path, color, width } => path_lands_within(path, transform, outer),
        _ => true,
    } by {
        match plan[i] {
            DrawStep::Fill { path, color } => {
                lemma_path_lands_wider(path, transform, inner, outer);
            },
            DrawStep::Stroke { path, color, width } => {
                lemma_path_lands_wider(path, transform, inner, outer);
            },
            _ => {},
        }
    }
}

/// Steps that paint no path, put before and behind a list of steps, change
/// neither the order of its fills and strokes nor where its paths land.
pub proof fn lemma_wrapped_plan(
    before: Seq<DrawStep>,
    inner: Seq<DrawStep>,
    after: Seq<DrawStep>,
    transform: Option<Transform>,
    region: Region,
)
    requires
        all_marks(before),
        all_marks(after),
    ensures
        fill_precedes_stroke(inner) ==> fill_precedes_stroke(before + inner + after),
        plan_lands_within(inner, transform, region) ==> plan_lands_within(
            before + inner + after,
            transform,
            region,
        ),
        all_marks(inner) ==> all_marks(before + inner + after),
{
    let whole = before + inner + after;
    assert forall|i: int| 0 <= i < whole.len() && !is_mark(#[trigger] whole[i]) implies before.len()
        <= i < before.len() + inner.len() && whole[i] == inner[i - before.len()] by {
        if i < before.len() {
            assert(whole[i] == before[i]);
        } else if i >= before.len() + inner.len() {
            assert(whole[i] == after[i - before.len() - inner.len()]);
        }
    }
    if fill_precedes_stroke(inner) {
        assert forall|i: int, j: int|
            0 <= i < whole.len() && 0 <= j < whole.len() && whole[i] is Fill
                && whole[j] is Stroke implies i < j by {
            assert(!is_mark(whole[i]));
            assert(!is_mark(whole[j]));
            assert(inner[i - before.len()] is Fill);
            assert(inner[j - before.len()] is Stroke);
        }
    }
    if plan_lands_within(inner, transform, region) {
        assert forall|i: int| 0 <= i < whole.len() implies match #[trigger] whole[i] {
            DrawStep::Fill { path, color } => path_lands_within(path, transform, region),
            DrawStep::Stroke { path, color, width } => path_lands_within(path, transform, region),
            _ => true,
        } by {
            if !is_mark(whole[i]) {
                assert(whole[i] == inner[i - before.len()]);
            }
        }
    }
    if all_marks(inner) {
        assert forall|i: int| 0 <= i < whole.len() implies is_mark(#[trigger] whole[i]) by {
            if before.len() <= i < before.len() + inner.len() {
                assert(whole[i] == inner[i - before.len()]);
                assert(is_mark(inner[i - before.len()]));
            }
        }
    }
}

/// A transform whose rows are no longer than 1 keeps the margin.
pub proof fn lemma_contraction_keeps_margin(t: Transform)
    requires
        t.spec_is_contraction(),
    ensures
        keeps_margin(t),
{
    lemma_row_keeps_margin(t.a as int, t.b as int);
    lemma_row_keeps_margin(t.c as int, t.d as int);
}

/// Two entries whose squares add up to no more than 1 add up, without
/// their signs, to little enough to keep the margin.
pub proof fn lemma_row_keeps_margin(a: int, b: int)
    requires
        a * a + b * b <= TRANSFORM_ONE * TRANSFORM_ONE,
    ensures
        (spec_abs(a) + spec_abs(b)) * JITTER_CAP <= TRANSFORM_ONE * ROUGH_BOUNDS_MARGIN,
{
    let u = spec_abs(a);
    let v = spec_abs(b);
    assert(u * u == a * a && v * v == b * b) by (nonlinear_arith)
        requires
            u == spec_abs(a),
            v == spec_abs(b),
    ;
    assert((u + v) * (u + v) <= 2 * (u * u + v * v)) by (nonlinear_arith);
    if u + v >= 5852 {
        assert((u + v) * (u + v) >= 5852 * 5852) by (nonlinear_arith)
            requires
                u + v >= 5852,
        ;
    }
    assert((u + v) * 3584 <= 5851 * 3584) by (nonlinear_arith)
        requires
            u + v <= 5851,
    ;
}

/// A translation keeps the margin.
pub proof fn lemma_translation_keeps_margin(t: Transform)
    requires
        t.a == TRANSFORM_ONE,
        t.b == 0,
        t.c == 0,
        t.d == TRANSFORM_ONE,
    ensures
        keeps_margin(t),
        t.spec_is_contraction(),
{
}

/// Appends one step to a list of steps.
pub fn push_op(ops: &mut Vec<DrawOp>, op: DrawOp)
    ensures
        steps(final(ops)@) == steps(old(ops)@).push(op@),
{
    proof {
        lemma_steps_push(ops@, op);
    }
    ops.push(op);
}

/// Appends a list of steps to a list of steps.
pub fn append_ops(ops: &mut Vec<DrawOp>, tail: Vec<DrawOp>)
    ensures
        steps(final(ops)@) == steps(old(ops)@) + steps(tail@),
{
    proof {
        lemma_steps_concat(ops@, tail@);
    }
    let mut tail = tail;
    ops.append(&mut tail);
}

/// Puts steps that paint no path before and behind the steps of a
/// primitive.
pub(crate) fn with_marks(
    before: Vec<DrawOp>,
    inner: Vec<DrawOp>,
    after: Vec<DrawOp>,
    Ghost(transform): Ghost<Option<Transform>>,
    Ghost(inner_region): Ghost<Region>,
    Ghost(region): Ghost<Region>,
    Ghost(depth): Ghost<int>,
) -> (ops: Vec<DrawOp>)
    requires
        all_marks(steps(before@)),
        all_marks(steps(after@)),
        fill_precedes_stroke(steps(inner@)),
        plan_lands_within(steps(inner@), transform, inner_region),
        inner_region.within(region),
        depth >= 0,
        spec_open_saves(steps(before@), 0) == Some(depth),
        saves_balanced(steps(inner@)),
        spec_open_saves(steps(after@), depth) == Some(0int),
    ensures
        steps(ops@) == steps(before@) + steps(inner@) + steps(after@),
        fill_precedes_stroke(steps(ops@)),
        plan_lands_within(steps(ops@), transform, region),
        saves_balanced(steps(ops@)),
{
    proof {
        lemma_wrapped_balanced(steps(before@), steps(inner@), steps(after@), depth);
        lemma_plan_lands_wider(steps(inner@), transform, inner_region, region);
        lemma_wrapped_plan(steps(before@), steps(inner@), steps(after@), transform, region);
    }
    let mut ops: Vec<DrawOp> = before;
    append_ops(&mut ops, inner);
    append_ops(&mut ops, after);
    ops
}

/// Draws one edge of a primitive: a rough line drawn twice, or once where
/// multistroke is disabled.
pub fn edge(a: Point, b: Point, options: &RoughOptions, rng: &mut RoughRng) -> (path: Vec<PathEl>)
    requires
        a.in_range(),
        b.in_range(),
        options.wf(),
    ensures
        path@ == spec_edge(a, b, *options, *old(rng)).0,
        *final(rng) == spec_edge(a, b, *options, *old(rng)).1,
        path_within(path@, Region::spanning(a, b).loosened(LINE_JITTER_CAP as int)),
        segment_count(path@) == spec_edge_segments(*options),
        path@.len() == 2 * spec_edge_segments(*options),
{
    if !options.disable_multistroke {
        doubleline(a, b, options, rng)
    } else {
        line(a, b, true, false, options, rng)
    }
}

/// Puts together the steps that paint one primitive.
pub fn plan(
    transform: Option<Transform>,
    outline: Vec<PathEl>,
    fill: Option<Vec<PathEl>>,
    options: &RoughOptions,
) -> (ops: Vec<DrawOp>)
    ensures
        steps(ops@) == spec_plan(transform, outline@, path_model(fill), *options),
{
    let mut ops: Vec<DrawOp> = Vec::new();
    let ghost mut before = ops@;
    ops.push(DrawOp::Save);
    proof {
        lemma_steps_push(before, DrawOp::Save);
        assert(steps(before) =~= Seq::<DrawStep>::empty());
        assert(steps(ops@) =~= seq![DrawStep::Save]);
    }
    match transform {
        Some(t) => {
            proof {
                before = ops@;
                lemma_steps_push(before, DrawOp::Transform(t));
            }
            ops.push(DrawOp::Transform(t));
        },
        None => {},
    }
    match fill {
        Some(path) => {
            match options.fill_color {
                Some(color) => {
                    let op: DrawOp = DrawOp::Fill { path, color };
                    proof {
                        before = ops@;
                        lemma_steps_push(before, op);
                    }
                    ops.push(op);
                },
                None => {},
            }
        },
        None => {},
    }
    match options.stroke_color {
        Some(color) => {
            let op: DrawOp = DrawOp::Stroke { path: outline, color, width: options.stroke_width };
            proof {
                before = ops@;
                lemma_steps_push(before, op);
            }
            ops.push(op);
        },
        None => {},
    }
    proof {
        before = ops@;
        lemma_steps_push(before, DrawOp::Restore);
    }
    ops.push(DrawOp::Restore);
    ops
}

/// Draws the outline of the box that reaches `half` from the origin, each of
/// its four edges on its own, so that the corners show gaps and overlaps as
/// those of a hand-drawn box do.
pub fn rectangle_outline(half: Point, options: &RoughOptions, rng: &mut RoughRng) -> (path: Vec<
    PathEl,
>)
    requires
        0 <= half.x <= COORD_MAX,
        0 <= half.y <= COORD_MAX,
        options.wf(),
    ensures
        path@ == spec_rectangle_outline(half, *options, *old(rng)).0,
        *final(rng) == spec_rectangle_outline(half, *options, *old(rng)).1,
        path_within(
            path@,
            Region::around(Point { x: 0, y: 0 }, half.x as int, half.y as int).loosened(
                LINE_JITTER_CAP as int,
            ),
        ),
        segment_count(path@) == 4 * spec_edge_segments(*options),
        path@.len() == 8 * spec_edge_segments(*options),
{
    let ghost region = Region::around(Point { x: 0, y: 0 }, half.x as int, half.y as int).loosened(
        LINE_JITTER_CAP as int,
    );
    let top_left: Point = Point { x: -half.x, y: -half.y };
    let top_right: Point = Point { x: half.x, y: -half.y };
    let bottom_right: Point = Point { x: half.x, y: half.y };
    let bottom_left: Point = Point { x: -half.x, y: half.y };
    let mut path: Vec<PathEl> = edge(top_left, top_right, options, rng);
    proof {
        lemma_path_within_wider(
            path@,
            Region::spanning(top_left, top_right).loosened(LINE_JITTER_CAP as int),
            region,
        );
    }
    let ghost top = path@;
    let mut right: Vec<PathEl> = edge(top_right, bottom_right, options, rng);
    proof {
        lemma_path_within_wider(
            right@,
            Region::spanning(top_right, bottom_right).loosened(LINE_JITTER_CAP as int),
            region,
        );
        lemma_path_within_concat(top, right@, region);
        lemma_segment_count_concat(top, right@);
    }
    path.append(&mut right);
    let ghost two = path@;
    let mut bottom: Vec<PathEl> = edge(bottom_right, bottom_left, options, rng);
    proof {
        lemma_path_within_wider(
            bottom@,
            Region::spanning(bottom_right, bottom_left).loosened(LINE_JITTER_CAP as int),
            region,
        );
        lemma_path_within_concat(two, bottom@, region);
        lemma_segment_count_concat(two, bottom@);
    }
    path.append(&mut bottom);
    let ghost three = path@;
    let mut left: Vec<PathEl> = edge(bottom_left, top_left, options, rng);
    proof {
        lemma_path_within_wider(
            left@,
            Region::spanning(bottom_left, top_left).loosened(LINE_JITTER_CAP as int),
            region,
        );
        lemma_path_within_concat(three, left@, region);
        lemma_segment_count_concat(three, left@);
    }
    path.append(&mut left);
    path
}

/// The corners of the box that reaches `half` from the origin: top left, top
/// right, bottom right, bottom left.
pub fn corners(half: Point) -> (c: Vec<Point>)
    requires
        0 <= half.x <= COORD_MAX,
        0 <= half.y <= COORD_MAX,
    ensures
        c@ == spec_corners(half),
        all_in_range(c@),
        points_within(c@, Region::around(Point { x: 0, y: 0 }, half.x as int, half.y as int)),
{
    let mut c: Vec<Point> = Vec::new();
    c.push(Point { x: -half.x, y: -half.y });
    c.push(Point { x: half.x, y: -half.y });
    c.push(Point { x: half.x, y: half.y });
    c.push(Point { x: -half.x, y: half.y });
    assert(c@ =~= spec_corners(half));
    c
}

impl Line {
    /// The bounds of the rough line: its exact bounds, loosened by half the
    /// stroke width and the bounds margin.
    pub open spec fn spec_composed_bounds(self, options: RoughOptions) -> Region {
        self.spec_bounds().loosened(options.spec_bounds_margin())
    }

    /// The steps that draw the rough line.
    pub open spec fn spec_draw_composed(self, options: RoughOptions, entropy: u64) -> Seq<DrawStep> {
        let rng = spec_new_rng(options.seed, entropy);
        spec_plan(None, spec_edge(self.start, self.end, options, rng).0, None, options)
    }

    /// The bounds of the rough line.
    pub fn composed_bounds(&self, options: &RoughOptions) -> (b: Aabb)
        requires
            self.wf(),
            options.wf(),
        ensures
            b@ == self.spec_composed_bounds(*options),
            b@.bounded_by(514 * COORD_MAX),
    {
        self.bounds().loosened(options.bounds_margin())
    }

    /// Draws the rough line: two passes, or one where multistroke is
    /// disabled, stroked where a stroke colour is set. `entropy` seeds the
    /// random source where the options hold no seed.
    pub fn draw_composed(&self, options: &RoughOptions, entropy: u64) -> (ops: Vec<DrawOp>)
        requires
            self.wf(),
            options.wf(),
        ensures
            steps(ops@) == self.spec_draw_composed(*options, entropy),
            plan_lands_within(steps(ops@), None, self.spec_composed_bounds(*options)),
            fill_precedes_stroke(steps(ops@)),
            saves_balanced(steps(ops@)),
            fill_steps(steps(ops@)) == 0,
            stroked_segments(steps(ops@)) == if options.stroke_color is Some {
                spec_edge_segments(*options)
            } else {
                0nat
            },
    {
        let mut rng: RoughRng = new_rng(options.seed, entropy);
        let bez_path: Vec<PathEl> = edge(self.start, self.end, options, &mut rng);
        proof {
            let region = self.spec_composed_bounds(*options);
            lemma_path_within_wider(
                bez_path@,
                Region::spanning(self.start, self.end).loosened(LINE_JITTER_CAP as int),
                region,
            );
            lemma_lands_untransformed(bez_path@, region);
            lemma_plan_properties(None, bez_path@, None, *options, region);
        }
        plan(None, bez_path, None, options)
    }
}

impl Rectangle {
    /// The bounds of the rough rectangle: its exact bounds, loosened by half
    /// the stroke width and the bounds margin.
    pub open spec fn spec_composed_bounds(self, options: RoughOptions) -> Region {
        self.spec_bounds().loosened(options.spec_bounds_margin())
    }

    /// The steps that draw the rough rectangle. The outline takes its draws
    /// first; the fill, made only where a fill colour is set, goes on from
    /// the same random source.
    pub open spec fn spec_draw_composed(self, options: RoughOptions, entropy: u64) -> Seq<DrawStep> {
        let rng = spec_new_rng(options.seed, entropy);
        let (outline, r1) = spec_rectangle_outline(self.half_extents, options, rng);
        let fill = if options.fill_color is Some {
            Some(spec_fill_polygon(spec_corners(self.half_extents), options, r1).0)
        } else {
            None
        };
        spec_plan(Some(self.transform), outline, fill, options)
    }

    /// The bounds of the rough rectangle.
    pub fn composed_bounds(&self, options: &RoughOptions) -> (b: Aabb)
        requires
            self.wf(),
            options.wf(),
        ensures
            b@ == self.spec_composed_bounds(*options),
            b@.bounded_by(514 * COORD_MAX),
    {
        self.bounds().loosened(options.bounds_margin())
    }

    /// Draws the rough rectangle in its own frame, under its transform: the
    /// four edges one by one, each in two passes or in one where multistroke
    /// is disabled; the hachure fill where a fill colour is set, before the
    /// outline where a stroke colour is set. `entropy` seeds the random
    /// source where the options hold no seed.
    pub fn draw_composed(&self, options: &RoughOptions, entropy: u64) -> (ops: Vec<DrawOp>)
        requires
            self.wf(),
            options.wf(),
        ensures
            steps(ops@) == self.spec_draw_composed(*options, entropy),
            keeps_margin(self.transform) ==> plan_lands_within(
                steps(ops@),
                Some(self.transform),
                self.spec_composed_bounds(*options),
            ),
            fill_precedes_stroke(steps(ops@)),
            saves_balanced(steps(ops@)),
            fill_steps(steps(ops@)) == if options.fill_color is Some {
                1nat
            } else {
                0nat
            },
            stroked_segments(steps(ops@)) == if options.stroke_color is Some {
                4 * spec_edge_segments(*options)
            } else {
                0nat
            },
    {
        let mut rng: RoughRng = new_rng(options.seed, entropy);
        let half: Point = self.half_extents;
        let ghost local = Region::around(Point { x: 0, y: 0 }, half.x as int, half.y as int);
        let rect_path: Vec<PathEl> = rectangle_outline(half, options, &mut rng);
        let fill: Option<Vec<PathEl>> = match options.fill_color {
            Some(_) => {
                let fill_points: Vec<Point> = corners(half);
                proof {
                    lemma_hull_within(fill_points@, local);
                }
                let path: Vec<PathEl> = fill_polygon(fill_points, options, &mut rng);
                proof {
                    lemma_path_within_wider(
                        path@,
                        spec_hull(spec_corners(half)).loosened(LINE_JITTER_CAP as int),
                        local.loosened(JITTER_CAP as int),
                    );
                }
                Some(path)
            },
            None => None,
        };
        proof {
            let region = self.spec_composed_bounds(*options);
            let fill_model = path_model(fill);
            lemma_path_within_wider(
                rect_path@,
                local.loosened(LINE_JITTER_CAP as int),
                local.loosened(JITTER_CAP as int),
            );
            if keeps_margin(self.transform) {
                lemma_lands_transformed(
                    rect_path@,
                    self.transform,
                    half.x as int,
                    half.y as int,
                    options.spec_bounds_margin(),
                );
                if fill is Some {
                    lemma_lands_transformed(
                        fill_model->0,
                        self.transform,
                        half.x as int,
                        half.y as int,
                        options.spec_bounds_margin(),
                    );
                }
            }
            lemma_plan_properties(Some(self.transform), rect_path@, fill_model, *options, region);
        }
        plan(Some(self.transform), rect_path, fill, options)
    }
}

impl Ellipse {
    /// The bounds of the rough ellipse: its exact bounds, loosened by half
    /// the stroke width and the bounds margin.
    pub open spec fn spec_composed_bounds(self, options: RoughOptions) -> Region {
        self.spec_bounds().loosened(options.spec_bounds_margin())
    }

    /// The steps that draw the rough ellipse. The outline takes its draws
    /// first; the fill over the samples of the first pass, made only where a
    /// fill colour is set, goes on from the same random source.
    pub open spec fn spec_draw_composed(self, options: RoughOptions, entropy: u64) -> Seq<DrawStep> {
        let rng = spec_new_rng(options.seed, entropy);
        let (result, r1) = spec_ellipse(
            Point { x: 0, y: 0 },
            self.radii.x as int,
            self.radii.y as int,
            options,
            rng,
        );
        let fill = if options.fill_color is Some {
            Some(spec_fill_polygon(result.estimated_points, options, r1).0)
        } else {
            None
        };
        spec_plan(Some(self.transform), result.bez_path, fill, options)
    }

    /// The bounds of the rough ellipse.
    pub fn composed_bounds(&self, options: &RoughOptions) -> (b: Aabb)
        requires
            self.wf(),
            options.wf(),
        ensures
            b@ == self.spec_composed_bounds(*options),
            b@.bounded_by(514 * COORD_MAX),
    {
        self.bounds().loosened(options.bounds_margin())
    }

    /// Draws the rough ellipse in its own frame, under its transform: the
    /// closed outline in two passes, or in one where multistroke is
    /// disabled; the hachure fill where a fill colour is set, before the
    /// outline where a stroke colour is set. `entropy` seeds the random
    /// source where the options hold no seed.
    pub fn draw_composed(&self, options: &RoughOptions, entropy: u64) -> (ops: Vec<DrawOp>)
        requires
            self.wf(),
            options.wf(),
        ensures
            steps(ops@) == self.spec_draw_composed(*options, entropy),
            keeps_margin(self.transform) ==> plan_lands_within(
                steps(ops@),
                Some(self.transform),
                self.spec_composed_bounds(*options),
            ),
            fill_precedes_stroke(steps(ops@)),
            saves_balanced(steps(ops@)),
            fill_steps(steps(ops@)) == if options.fill_color is Some {
                1nat
            } else {
                0nat
            },
            stroked_segments(steps(ops@)) == if options.stroke_color is Some {
                spec_edge_segments(*options) * spec_sample_count(
                    self.radii.x as int,
                    self.radii.y as int,
                )
            } else {
                0
            },
    {
        let mut rng: RoughRng = new_rng(options.seed, entropy);
        let ghost local = Region::around(
            Point { x: 0, y: 0 },
            self.radii.x as int,
            self.radii.y as int,
        );
        let result: EllipseResult = ellipse(
            Point { x: 0, y: 0 },
            self.radii.x,
            self.radii.y,
            options,
            &mut rng,
        );
        let EllipseResult { bez_path, estimated_points } = result;
        let fill: Option<Vec<PathEl>> = match options.fill_color {
            Some(_) => {
                proof {
                    lemma_hull_within(
                        estimated_points@,
                        local.loosened(ELLIPSE_JITTER_CAP as int),
                    );
                }
                let ghost vertices = estimated_points@;
                let path: Vec<PathEl> = fill_polygon(estimated_points, options, &mut rng);
                proof {
                    lemma_path_within_wider(
                        path@,
                        spec_hull(vertices).loosened(LINE_JITTER_CAP as int),
                        local.loosened(JITTER_CAP as int),
                    );
                }
                Some(path)
            },
            None => None,
        };
        proof {
            let region = self.spec_composed_bounds(*options);
            let fill_model = path_model(fill);
            lemma_path_within_wider(
                bez_path@,
                local.loosened(ELLIPSE_JITTER_CAP as int),
                local.loosened(JITTER_CAP as int),
            );
            if keeps_margin(self.transform) {
                lemma_lands_transformed(
                    bez_path@,
                    self.transform,
                    self.radii.x as int,
                    self.radii.y as int,
                    options.spec_bounds_margin(),
                );
                if fill is Some {
                    lemma_lands_transformed(
                        fill_model->0,
                        self.transform,
                        self.radii.x as int,
                        self.radii.y as int,
                        options.spec_bounds_margin(),
                    );
                }
            }
            lemma_plan_properties(Some(self.transform), bez_path@, fill_model, *options, region);
        }
        plan(Some(self.transform), bez_path, fill, options)
    }
}

impl QuadraticBezier {
    /// The bounds of the rough curve: its exact bounds, loosened by half the
    /// stroke width and the bounds margin.
    pub open spec fn spec_composed_bounds(self, options: RoughOptions) -> Region {
        self.spec_bounds().loosened(options.spec_bounds_margin())
    }

    /// The steps that draw the rough curve.
    pub open spec fn spec_draw_composed(self, options: RoughOptions, entropy: u64) -> Seq<DrawStep> {
        let rng = spec_new_rng(options.seed, entropy);
        spec_plan(
            None,
            spec_quadratic_bezier(self.start, self.cp, self.end, options, rng).0,
            None,
            options,
        )
    }

    /// The bounds of the rough curve.
    pub fn composed_bounds(&self, options: &RoughOptions) -> (b: Aabb)
        requires
            self.wf(),
            options.wf(),
        ensures
            b@ == self.spec_composed_bounds(*options),
            b@.bounded_by(514 * COORD_MAX),
    {
        self.bounds().loosened(options.bounds_margin())
    }

    /// Draws the rough curve: two passes, or one where multistroke is
    /// disabled, stroked where a stroke colour is set. `entropy` seeds the
    /// random source where the options hold no seed.
    pub fn draw_composed(&self, options: &RoughOptions, entropy: u64) -> (ops: Vec<DrawOp>)
        requires
            self.wf(),
            options.wf(),
        ensures
            steps(ops@) == self.spec_draw_composed(*options, entropy),
            plan_lands_within(steps(ops@), None, self.spec_composed_bounds(*options)),
            fill_precedes_stroke(steps(ops@)),
            saves_balanced(steps(ops@)),
            fill_steps(steps(ops@)) == 0,
            stroked_segments(steps(ops@)) == if options.stroke_color is Some {
                spec_curve_segments(*options)
            } else {
                0
            },
    {
        let mut rng: RoughRng = new_rng(options.seed, entropy);
        let bez_path: Vec<PathEl> = quadratic_bezier(
            self.start,
            self.cp,
            self.end,
            options,
            &mut rng,
        );
        proof {
            let region = self.spec_composed_bounds(*options);
            lemma_path_within_wider(
                bez_path@,
                self.spec_bounds().loosened(CURVE_JITTER_CAP as int),
                region,
            );
            lemma_lands_untransformed(bez_path@, region);
            lemma_plan_properties(None, bez_path@, None, *options, region);
        }
        plan(None, bez_path, None, options)
    }
}

impl CubicBezier {
    /// The bounds of the rough curve: its exact bounds, loosened by half the
    /// stroke width and the bounds margin.
    pub open spec fn spec_composed_bounds(self, options: RoughOptions) -> Region {
        self.spec_bounds().loosened(options.spec_bounds_margin())
    }

    /// The steps that draw the rough curve.
    pub open spec fn spec_draw_composed(self, options: RoughOptions, entropy: u64) -> Seq<DrawStep> {
        let rng = spec_new_rng(options.seed, entropy);
        spec_plan(
            None,
            spec_cubic_bezier(self.start, self.cp1, self.cp2, self.end, options, rng).0,
            None,
            options,
        )
    }

    /// The bounds of the rough curve.
    pub fn composed_bounds(&self, options: &RoughOptions) -> (b: Aabb)
        requires
            self.wf(),
            options.wf(),
        ensures
            b@ == self.spec_composed_bounds(*options),
            b@.bounded_by(514 * COORD_MAX),
    {
        self.bounds().loosened(options.bounds_margin())
    }

    /// Draws the rough curve: two passes, or one where multistroke is
    /// disabled, stroked where a stroke colour is set. `entropy` seeds the
    /// random source where the options hold no seed.
    pub fn draw_composed(&self, options: &RoughOptions, entropy: u64) -> (ops: Vec<DrawOp>)
        requires
            self.wf(),
            options.wf(),
        ensures
            steps(ops@) == self.spec_draw_composed(*options, entropy),
            plan_lands_within(steps(ops@), None, self.spec_composed_bounds(*options)),
            fill_precedes_stroke(steps(ops@)),
            saves_balanced(steps(ops@)),
            fill_steps(steps(ops@)) == 0,
            stroked_segments(steps(ops@)) == if options.stroke_color is Some {
                spec_curve_segments(*options)
            } else {
                0
            },
    {
        let mut rng: RoughRng = new_rng(options.seed, entropy);
        let bez_path: Vec<PathEl> = cubic_bezier(
            self.start,
            self.cp1,
            self.cp2,
            self.end,
            options,
            &mut rng,
        );
        proof {
            let region = self.spec_composed_bounds(*options);
            lemma_path_within_wider(
                bez_path@,
                self.spec_bounds().loosened(CURVE_JITTER_CAP as int),
                region,
            );
            lemma_lands_untransformed(bez_path@, region);
            lemma_plan_properties(None, bez_path@, None, *options, region);
        }
        plan(None, bez_path, None, options)
    }
}

impl Shape {
    /// The bounds of the rough primitive: its exact bounds, loosened by half
    /// the stroke width and the bounds margin.
    pub open spec fn spec_composed_bounds(self, options: RoughOptions) -> Region {
        self.spec_bounds().loosened(options.spec_bounds_margin())
    }

    /// The steps that draw the rough primitive.
    pub open spec fn spec_draw_composed(self, options: RoughOptions, entropy: u64) -> Seq<DrawStep> {
        match self {
            Shape::Line(s) => s.spec_draw_composed(options, entropy),
            Shape::Rectangle(s) => s.spec_draw_composed(options, entropy),
            Shape::Ellipse(s) => s.spec_draw_composed(options, entropy),
            Shape::QuadraticBezier(s) => s.spec_draw_composed(options, entropy),
            Shape::CubicBezier(s) => s.spec_draw_composed(options, entropy),
        }
    }

    /// Whether the transform of the primitive, if it has one, keeps the margin.
    pub open spec fn spec_keeps_margin(self) -> bool {
        match self.spec_transform() {
            Some(t) => keeps_margin(t),
            None => true,
        }
    }

    /// The bounds of the rough primitive.
    pub fn composed_bounds(&self, options: &RoughOptions) -> (b: Aabb)
        requires
            self.wf(),
            options.wf(),
        ensures
            b@ == self.spec_composed_bounds(*options),
            b@.bounded_by(514 * COORD_MAX),
    {
        match self {
            Shape::Line(line) => line.composed_bounds(options),
            Shape::Rectangle(rectangle) => rectangle.composed_bounds(options),
            Shape::Ellipse(ellipse) => ellipse.composed_bounds(options),
            Shape::QuadraticBezier(quadbez) => quadbez.composed_bounds(options),
            Shape::CubicBezier(cubbez) => cubbez.composed_bounds(options),
        }
    }

    /// Draws the rough primitive. Every path that is filled or stroked,
    /// drawn under the primitive's transform, lies in the composed bounds,
    /// provided that the transform keeps the margin; and the fill comes
    /// before the outline.
    pub fn draw_composed(&self, options: &RoughOptions, entropy: u64) -> (ops: Vec<DrawOp>)
        requires
            self.wf(),
            options.wf(),
        ensures
            steps(ops@) == self.spec_draw_composed(*options, entropy),
            self.spec_keeps_margin() ==> plan_lands_within(
                steps(ops@),
                self.spec_transform(),
                self.spec_composed_bounds(*options),
            ),
            fill_precedes_stroke(steps(ops@)),
            saves_balanced(steps(ops@)),
    {
        match self {
            Shape::Line(line) => line.draw_composed(options, entropy),
            Shape::Rectangle(rectangle) => rectangle.draw_composed(options, entropy),
            Shape::Ellipse(ellipse) => ellipse.draw_composed(options, entropy),
            Shape::QuadraticBezier(quadbez) => quadbez.draw_composed(options, entropy),
            Shape::CubicBezier(cubbez) => cubbez.draw_composed(options, entropy),
        }
    }
}

/// A draw call with a seed gives the same steps whatever entropy it is
/// handed: two calls with the same primitive, options and seed agree in
/// every command.
pub proof fn lemma_seeded_draw_repeats(shape: Shape, options: RoughOptions, first: u64, second: u64)
    requires
        options.seed is Some,
    ensures
        shape.spec_draw_composed(options, first) == shape.spec_draw_composed(options, second),
{
}

/// Whatever the primitive and the options, every fill among the steps of a
/// draw call comes before every stroke.
pub proof fn lemma_fill_before_stroke(shape: Shape, options: RoughOptions, entropy: u64)
    ensures
        fill_precedes_stroke(shape.spec_draw_composed(options, entropy)),
{
    let rng = spec_new_rng(options.seed, entropy);
    let nowhere = Region { min_x: 0, min_y: 0, max_x: 0, max_y: 0 };
    match shape {
        Shape::Line(s) => {
            lemma_plan_properties(
                None,
                spec_edge(s.start, s.end, options, rng).0,
                None,
                options,
                nowhere,
            );
        },
        Shape::Rectangle(s) => {
            let (outline, r1) = spec_rectangle_outline(s.half_extents, options, rng);
            let fill = if options.fill_color is Some {
                Some(spec_fill_polygon(spec_corners(s.half_extents), options, r1).0)
            } else {
                None
            };
            lemma_plan_properties(Some(s.transform), outline, fill, options, nowhere);
        },
        Shape::Ellipse(s) => {
            let (result, r1) = spec_ellipse(
                Point { x: 0, y: 0 },
                s.radii.x as int,
                s.radii.y as int,
                options,
                rng,
            );
            let fill = if options.fill_color is Some {
                Some(spec_fill_polygon(result.estimated_points, options, r1).0)
            } else {
                None
            };
            lemma_plan_properties(Some(s.transform), result.bez_path, fill, options, nowhere);
        },
        Shape::QuadraticBezier(s) => {
            lemma_plan_properties(
                None,
                spec_quadratic_bezier(s.start, s.cp, s.end, options, rng).0,
                None,
                options,
                nowhere,
            );
        },
        Shape::CubicBezier(s) => {
            lemma_plan_properties(
                None,
                spec_cubic_bezier(s.start, s.cp1, s.cp2, s.end, options, rng).0,
                None,
                options,
                nowhere,
            );
        },
    }
}

/// A line drawn in one pass is a move and a curve; drawn with multistroke it
/// is two moves and two curves, whatever the state of the random source.
pub proof fn lemma_multistroke_doubles_line(
    line: Line,
    single: RoughOptions,
    double: RoughOptions,
    first: RoughRng,
    second: RoughRng,
)
    requires
        line.wf(),
        single.wf(),
        double.wf(),
        single.disable_multistroke,
        !double.disable_multistroke,
    ensures
        spec_edge(line.start, line.end, single, first).0.len() == 2,
        segment_count(spec_edge(line.start, line.end, single, first).0) == 1,
        spec_edge(line.start, line.end, double, second).0.len() == 4,
        segment_count(spec_edge(line.start, line.end, double, second).0) == 2,
{
    lemma_line_properties(line.start, line.end, true, false, single, first);
    lemma_doubleline_properties(line.start, line.end, double, second);
}

/// An edge of a primitive lies in the box around its two ends, loosened by
/// the line's jitter cap.
pub proof fn lemma_edge_within(a: Point, b: Point, options: RoughOptions, rng: RoughRng)
    requires
        a.in_range(),
        b.in_range(),
        options.wf(),
    ensures
        path_within(
            spec_edge(a, b, options, rng).0,
            Region::spanning(a, b).loosened(LINE_JITTER_CAP as int),
        ),
{
    if !options.disable_multistroke {
        lemma_doubleline_properties(a, b, options, rng);
    } else {
        lemma_line_properties(a, b, true, false, options, rng);
    }
}

/// The outline of a rectangle lies in the rectangle's own box, loosened by
/// the line's jitter cap.
pub proof fn lemma_rectangle_outline_within(half: Point, options: RoughOptions, rng: RoughRng)
    requires
        0 <= half.x <= COORD_MAX,
        0 <= half.y <= COORD_MAX,
        options.wf(),
    ensures
        path_within(
            spec_rectangle_outline(half, options, rng).0,
            Region::around(Point { x: 0, y: 0 }, half.x as int, half.y as int).loosened(
                LINE_JITTER_CAP as int,
            ),
        ),
{
    let region = Region::around(Point { x: 0, y: 0 }, half.x as int, half.y as int).loosened(
        LINE_JITTER_CAP as int,
    );
    let c = spec_corners(half);
    let (top, r1) = spec_edge(c[0], c[1], options, rng);
    let (right, r2) = spec_edge(c[1], c[2], options, r1);
    let (bottom, r3) = spec_edge(c[2], c[3], options, r2);
    let (left, r4) = spec_edge(c[3], c[0], options, r3);
    lemma_edge_within(c[0], c[1], options, rng);
    lemma_edge_within(c[1], c[2], options, r1);
    lemma_edge_within(c[2], c[3], options, r2);
    lemma_edge_within(c[3], c[0], options, r3);
    lemma_path_within_wider(
        top,
        Region::spanning(c[0], c[1]).loosened(LINE_JITTER_CAP as int),
        region,
    );
    lemma_path_within_wider(
        right,
        Region::spanning(c[1], c[2]).loosened(LINE_JITTER_CAP as int),
        region,
    );
    lemma_path_within_wider(
        bottom,
        Region::spanning(c[2], c[3]).loosened(LINE_JITTER_CAP as int),
        region,
    );
    lemma_path_within_wider(
        left,
        Region::spanning(c[3], c[0]).loosened(LINE_JITTER_CAP as int),
        region,
    );
    lemma_path_within_concat(top, right, region);
    lemma_path_within_concat(top + right, bottom, region);
    lemma_path_within_concat(top + right + bottom, left, region);
}

/// The rough path of a rectangle, outline and fill, drawn under a transform
/// that keeps the margin, lands in the composed bounds.
pub proof fn lemma_rectangle_lands(rect: Rectangle, options: RoughOptions, entropy: u64)
    requires
        rect.wf(),
        options.wf(),
        keeps_margin(rect.transform),
    ensures
        plan_lands_within(
            rect.spec_draw_composed(options, entropy),
            Some(rect.transform),
            rect.spec_composed_bounds(options),
        ),
{
    let rng = spec_new_rng(options.seed, entropy);
    let half = rect.half_extents;
    let local = Region::around(Point { x: 0, y: 0 }, half.x as int, half.y as int);
    let region = rect.spec_composed_bounds(options);
    let (outline, r1) = spec_rectangle_outline(half, options, rng);
    lemma_rectangle_outline_within(half, options, rng);
    lemma_path_within_wider(
        outline,
        local.loosened(LINE_JITTER_CAP as int),
        local.loosened(JITTER_CAP as int),
    );
    lemma_lands_transformed(
        outline,
        rect.transform,
        half.x as int,
        half.y as int,
        options.spec_bounds_margin(),
    );
    let fill = if options.fill_color is Some {
        Some(spec_fill_polygon(spec_corners(half), options, r1).0)
    } else {
        None
    };
    if options.fill_color is Some {
        let c = spec_corners(half);
        assert(all_in_range(c));
        assert(points_within(c, local));
        lemma_hull_within(c, local);
        lemma_fill_polygon_within(c, options, r1);
        lemma_path_within_wider(
            fill->0,
            spec_hull(c).loosened(LINE_JITTER_CAP as int),
            local.loosened(JITTER_CAP as int),
        );
        lemma_lands_transformed(
            fill->0,
            rect.transform,
            half.x as int,
            half.y as int,
            options.spec_bounds_margin(),
        );
    }
    lemma_plan_properties(Some(rect.transform), outline, fill, options, region);
}

/// The rough path of an ellipse, outline and fill, drawn under a transform
/// that keeps the margin, lands in the composed bounds.
pub proof fn lemma_ellipse_lands(shape: Ellipse, options: RoughOptions, entropy: u64)
    requires
        shape.wf(),
        options.wf(),
        keeps_margin(shape.transform),
    ensures
        plan_lands_within(
            shape.spec_draw_composed(options, entropy),
            Some(shape.transform),
            shape.spec_composed_bounds(options),
        ),
{
    let rng = spec_new_rng(options.seed, entropy);
    let origin = Point { x: 0, y: 0 };
    let local = Region::around(origin, shape.radii.x as int, shape.radii.y as int);
    let region = shape.spec_composed_bounds(options);
    let (result, r1) = spec_ellipse(origin, shape.radii.x as int, shape.radii.y as int, options, rng);
    lemma_ellipse_within(origin, shape.radii.x as int, shape.radii.y as int, options, rng);
    lemma_path_within_wider(
        result.bez_path,
        local.loosened(ELLIPSE_JITTER_CAP as int),
        local.loosened(JITTER_CAP as int),
    );
    lemma_lands_transformed(
        result.bez_path,
        shape.transform,
        shape.radii.x as int,
        shape.radii.y as int,
        options.spec_bounds_margin(),
    );
    let fill = if options.fill_color is Some {
        Some(spec_fill_polygon(result.estimated_points, options, r1).0)
    } else {
        None
    };
    if options.fill_color is Some {
        let vertices = result.estimated_points;
        assert(all_in_range(vertices));
        lemma_hull_within(vertices, local.loosened(ELLIPSE_JITTER_CAP as int));
        lemma_fill_polygon_within(vertices, options, r1);
        lemma_path_within_wider(
            fill->0,
            spec_hull(vertices).loosened(LINE_JITTER_CAP as int),
            local.loosened(JITTER_CAP as int),
        );
        lemma_lands_transformed(
            fill->0,
            shape.transform,
            shape.radii.x as int,
            shape.radii.y as int,
            options.spec_bounds_margin(),
        );
    }
    lemma_plan_properties(Some(shape.transform), result.bez_path, fill, options, region);
}

/// Every point of the rough path of a primitive lies in the composed
/// bounds: for a line or a curve as it stands, for a rectangle or an ellipse
/// as its transform places it, provided that the transform keeps the margin.
pub proof fn lemma_draw_lands_in_bounds(shape: Shape, options: RoughOptions, entropy: u64)
    requires
        shape.wf(),
        options.wf(),
        shape.spec_keeps_margin(),
    ensures
        plan_lands_within(
            shape.spec_draw_composed(options, entropy),
            shape.spec_transform(),
            shape.spec_composed_bounds(options),
        ),
{
    let rng = spec_new_rng(options.seed, entropy);
    let region = shape.spec_composed_bounds(options);
    match shape {
        Shape::Line(s) => {
            let path = spec_edge(s.start, s.end, options, rng).0;
            lemma_edge_within(s.start, s.end, options, rng);
            lemma_path_within_wider(
                path,
                Region::spanning(s.start, s.end).loosened(LINE_JITTER_CAP as int),
                region,
            );
            lemma_lands_untransformed(path, region);
            lemma_plan_properties(None, path, None, options, region);
        },
        Shape::Rectangle(s) => {
            lemma_rectangle_lands(s, options, entropy);
        },
        Shape::Ellipse(s) => {
            lemma_ellipse_lands(s, options, entropy);
        },
        Shape::QuadraticBezier(s) => {
            let ctrl = Controls { p0: s.start, p1: s.cp, p2: s.end, p3: s.end };
            let path = spec_quadratic_bezier(s.start, s.cp, s.end, options, rng).0;
            lemma_curve_within(ctrl, false, options, rng);
            lemma_path_within_wider(
                path,
                ctrl.spec_hull().loosened(CURVE_JITTER_CAP as int),
                region,
            );
            lemma_lands_untransformed(path, region);
            lemma_plan_properties(None, path, None, options, region);
        },
        Shape::CubicBezier(s) => {
            let ctrl = Controls { p0: s.start, p1: s.cp1, p2: s.cp2, p3: s.end };
            let path = spec_cubic_bezier(s.start, s.cp1, s.cp2, s.end, options, rng).0;
            lemma_curve_within(ctrl, true, options, rng);
            lemma_path_within_wider(
                path,
                ctrl.spec_hull().loosened(CURVE_JITTER_CAP as int),
                region,
            );
            lemma_lands_untransformed(path, region);
            lemma_plan_properties(None, path, None, options, region);
        },
    }
}

} // verus!
