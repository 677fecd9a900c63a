//! Primitives under construction: what is known of each so far, the bounds
//! of its rendering, and the steps that draw it together with the handles
//! on its known points.

use vstd::prelude::*;
use crate::arith::{abs_i64, lemma_lerp_between, lerp, spec_abs, spec_lerp, COORD_MAX};
use crate::compose::{all_marks, fill_precedes_stroke, keeps_margin,
    lemma_contraction_keeps_margin, lemma_open_saves_push, lemma_translation_keeps_margin,
    plan_lands_within, push_op, saves_balanced, spec_open_saves, steps, with_marks, DrawOp,
    DrawStep, PenState};
use crate::geom::{Aabb, Point, Region, Transform, TRANSFORM_ONE};
use crate::options::RoughOptions;
use crate::shapes::{foci_ok, spec_from_foci_and_point, CubicBezier, Ellipse, Line,
    QuadraticBezier, Rectangle};

verus! {

/// Radius of the handle that marks a position, in units.
pub const POS_INDICATOR_RADIUS: i64 = 768;

/// Width of the outline of a handle, in units.
pub const POS_INDICATOR_OUTLINE_WIDTH: i64 = 384;

/// How far a handle reaches from the position it marks.
pub const INDICATOR_REACH: i64 = 1152;

/// A line that is being drawn.
#[derive(Clone, Copy, Debug, PartialEq, Eq, Structural)]
pub struct LineBuilder {
    /// Where the pen went down.
    pub start: Point,
    /// Where the pen is now.
    pub current: Point,
}

/// A rectangle that is being drawn, from one corner to the opposite one.
#[derive(Clone, Copy, Debug, PartialEq, Eq, Structural)]
pub struct RectangleBuilder {
    /// Where the pen went down.
    pub start: Point,
    /// Where the pen is now.
    pub current: Point,
}

/// An ellipse that is being drawn, from its centre outwards.
#[derive(Clone, Copy, Debug, PartialEq, Eq, Structural)]
pub struct EllipseBuilder {
    /// Where the pen went down: the centre.
    pub start: Point,
    /// Where the pen is now: a corner of the box around the ellipse.
    pub current: Point,
}

/// The two foci of an ellipse.
#[derive(Clone, Copy, Debug, PartialEq, Eq, Structural)]
pub struct FociPair {
    /// The focus given first.
    pub first: Point,
    /// The focus given second.
    pub second: Point,
}

/// What is known of an ellipse that is being given by its foci.
#[derive(Clone, Copy, Debug, PartialEq, Eq, Structural)]
pub enum FociEllipseBuilderState {
    /// The first focus.
    First(Point),
    /// Both foci.
    Foci(FociPair),
    /// Both foci and a point on the ellipse.
    FociAndPoint {
        /// The two foci.
        foci: FociPair,
        /// A point on the ellipse.
        point: Point,
    },
}

/// An ellipse that is being given by its foci and a point.
#[derive(Clone, Copy, Debug, PartialEq, Eq, Structural)]
pub struct FociEllipseBuilder {
    /// What is known so far.
    pub state: FociEllipseBuilderState,
}

/// What is known of a quadratic curve that is being drawn.
#[derive(Clone, Copy, Debug, PartialEq, Eq, Structural)]
pub enum QuadBezBuilderState {
    /// The start.
    Start(Point),
    /// The start and the control point.
    Cp {
        /// Where the curve starts.
        start: Point,
        /// The control point.
        cp: Point,
    },
    /// All three points.
    End {
        /// Where the curve starts.
        start: Point,
        /// The control point.
        cp: Point,
        /// Where the curve ends.
        end: Point,
    },
}

/// A quadratic curve that is being drawn.
#[derive(Clone, Copy, Debug, PartialEq, Eq, Structural)]
pub struct QuadBezBuilder {
    /// What is known so far.
    pub state: QuadBezBuilderState,
}

/// What is known of a cubic curve that is being drawn.
#[derive(Clone, Copy, Debug, PartialEq, Eq, Structural)]
pub enum CubBezBuilderState {
    /// The start.
    Start(Point),
    /// The start and the first control point.
    Cp1 {
        /// Where the curve starts.
        start: Point,
        /// First control point.
        cp1: Point,
    },
    /// The start and both control points.
    Cp2 {
        /// Where the curve starts.
        start: Point,
        /// First control point.
        cp1: Point,
        /// Second control point.
        cp2: Point,
    },
    /// All four points.
    End {
        /// Where the curve starts.
        start: Point,
        /// First control point.
        cp1: Point,
        /// Second control point.
        cp2: Point,
        /// Where the curve ends.
        end: Point,
    },
}

/// A cubic curve that is being drawn.
#[derive(Clone, Copy, Debug, PartialEq, Eq, Structural)]
pub struct CubBezBuilder {
    /// What is known so far.
    pub state: CubBezBuilderState,
}

/// The step that marks a position.
pub open spec fn spec_pos(state: PenState, pos: Point) -> DrawStep {
    DrawStep::PosIndicator { state, pos }
}

/// The step that marks a vector.
pub open spec fn spec_vec(state: PenState, start: Point, end: Point) -> DrawStep {
    DrawStep::VecIndicator { state, start, end }
}

/// The bounds of a state of which one point is known: the box that reaches
/// the stroke width and the handle's reach from the point to each side.
pub open spec fn spec_point_bounds(p: Point, options: RoughOptions) -> Region {
    Region::around(
        p,
        options.stroke_width + INDICATOR_REACH,
        options.stroke_width + INDICATOR_REACH,
    )
}

/// The bounds of a state of which two points are known: the box around
/// them, loosened by the stroke width and the handle's reach.
pub open spec fn spec_pair_bounds(a: Point, b: Point, options: RoughOptions) -> Region {
    Region::spanning(a, b).loosened(options.stroke_width + INDICATOR_REACH)
}

/// The bounds of a state of which one point is known.
fn point_bounds(p: Point, options: &RoughOptions) -> (b: Aabb)
    requires
        p.in_range(),
        options.wf(),
    ensures
        b@ == spec_point_bounds(p, *options),
{
    let reach: i64 = options.stroke_width + POS_INDICATOR_RADIUS + POS_INDICATOR_OUTLINE_WIDTH;
    Aabb::from_half_extents(p, Point { x: reach, y: reach })
}

/// The bounds of a state of which two points are known.
fn pair_bounds(a: Point, b: Point, options: &RoughOptions) -> (r: Aabb)
    requires
        a.in_range(),
        b.in_range(),
        options.wf(),
    ensures
        r@ == spec_pair_bounds(a, b, *options),
{
    Aabb::new_positive(a, b).loosened(
        options.stroke_width + POS_INDICATOR_RADIUS + POS_INDICATOR_OUTLINE_WIDTH,
    )
}

/// Appends the step that marks a position. The saves open after the steps,
/// counted from `open`, stay as they are.
fn push_pos(ops: &mut Vec<DrawOp>, state: PenState, pos: Point, Ghost(open): Ghost<int>)
    ensures
        steps(final(ops)@) == steps(old(ops)@).push(spec_pos(state, pos)),
        spec_open_saves(steps(final(ops)@), open) == spec_open_saves(steps(old(ops)@), open),
{
    proof {
        lemma_open_saves_push(steps(ops@), spec_pos(state, pos), open);
    }
    push_op(ops, DrawOp::PosIndicator { state, pos });
}

/// Appends the step that marks a vector. The saves open after the steps,
/// counted from `open`, stay as they are.
fn push_vec(
    ops: &mut Vec<DrawOp>,
    state: PenState,
    start: Point,
    end: Point,
    Ghost(open): Ghost<int>,
)
    ensures
        steps(final(ops)@) == steps(old(ops)@).push(spec_vec(state, start, end)),
        spec_open_saves(steps(final(ops)@), open) == spec_open_saves(steps(old(ops)@), open),
{
    proof {
        lemma_open_saves_push(steps(ops@), spec_vec(state, start, end), open);
    }
    push_op(ops, DrawOp::VecIndicator { state, start, end });
}

/// Appends a save. One more save is open after the steps, counted from `open`.
fn push_save(ops: &mut Vec<DrawOp>, Ghost(open): Ghost<int>)
    requires
        spec_open_saves(steps(old(ops)@), open) is Some,
    ensures
        steps(final(ops)@) == steps(old(ops)@).push(DrawStep::Save),
        spec_open_saves(steps(final(ops)@), open) == Some(
            spec_open_saves(steps(old(ops)@), open)->0 + 1,
        ),
{
    proof {
        lemma_open_saves_push(steps(ops@), DrawStep::Save, open);
    }
    push_op(ops, DrawOp::Save);
}

/// Appends a restore. One save fewer is open after the steps, counted from
/// `open`.
fn push_restore(ops: &mut Vec<DrawOp>, Ghost(open): Ghost<int>)
    requires
        spec_open_saves(steps(old(ops)@), open) is Some,
        spec_open_saves(steps(old(ops)@), open)->0 > 0,
    ensures
        steps(final(ops)@) == steps(old(ops)@).push(DrawStep::Restore),
        spec_open_saves(steps(final(ops)@), open) == Some(
            spec_open_saves(steps(old(ops)@), open)->0 - 1,
        ),
{
    proof {
        lemma_open_saves_push(steps(ops@), DrawStep::Restore, open);
    }
    push_op(ops, DrawOp::Restore);
}

/// A new list of steps.
fn no_ops() -> (ops: Vec<DrawOp>)
    ensures
        steps(ops@) == Seq::<DrawStep>::empty(),
        forall|open: int| spec_open_saves(steps(ops@), open) == Some(open),
{
    let ops: Vec<DrawOp> = Vec::new();
    assert(steps(ops@) =~= Seq::<DrawStep>::empty());
    ops
}

/// The step that opens a drawing.
fn saved() -> (ops: Vec<DrawOp>)
    ensures
        steps(ops@) == seq![DrawStep::Save],
        all_marks(steps(ops@)),
        spec_open_saves(steps(ops@), 0) == Some(1int),
{
    let mut ops: Vec<DrawOp> = no_ops();
    push_save(&mut ops, Ghost(0));
    assert(steps(ops@) =~= seq![DrawStep::Save]);
    ops
}

/// The handles on the two points of a primitive that is dragged out, and
/// the step that closes the drawing.
fn drag_marks(start: Point, current: Point) -> (ops: Vec<DrawOp>)
    ensures
        steps(ops@) == spec_drag_marks(start, current),
        all_marks(steps(ops@)),
        spec_open_saves(steps(ops@), 1) == Some(0int),
{
    let mut ops: Vec<DrawOp> = no_ops();
    push_pos(&mut ops, PenState::Up, start, Ghost(1));
    push_pos(&mut ops, PenState::Down, current, Ghost(1));
    push_restore(&mut ops, Ghost(1));
    assert(steps(ops@) =~= spec_drag_marks(start, current));
    ops
}

/// The handles on the two points of a primitive that is dragged out, and
/// the step that closes the drawing.
pub open spec fn spec_drag_marks(start: Point, current: Point) -> Seq<DrawStep> {
    seq![spec_pos(PenState::Up, start), spec_pos(PenState::Down, current), DrawStep::Restore]
}

impl LineBuilder {
    /// Whether both points are in the coordinate range.
    pub open spec fn wf(self) -> bool {
        self.start.in_range() && self.current.in_range()
    }

    /// The line from where the pen went down to where it is now.
    pub open spec fn spec_state_as_line(self) -> Line {
        Line { start: self.start, end: self.current }
    }

    /// The bounds of the rough line, loosened by the handle's reach.
    pub open spec fn spec_composed_bounds(self, options: RoughOptions) -> Region {
        self.spec_state_as_line().spec_composed_bounds(options).loosened(INDICATOR_REACH as int)
    }

    /// The steps that draw the rough line and the handles on its two points.
    pub open spec fn spec_draw_composed(self, options: RoughOptions, entropy: u64) -> Seq<DrawStep> {
        seq![DrawStep::Save] + self.spec_state_as_line().spec_draw_composed(options, entropy)
            + spec_drag_marks(self.start, self.current)
    }

    /// The line from where the pen went down to where it is now.
    pub fn state_as_line(&self) -> (line: Line)
        ensures
            line == self.spec_state_as_line(),
    {
        Line { start: self.start, end: self.current }
    }

    /// The bounds of the rough line and its handles.
    pub fn composed_bounds(&self, options: &RoughOptions) -> (b: Aabb)
        requires
            self.wf(),
            options.wf(),
        ensures
            b@ == self.spec_composed_bounds(*options),
    {
        self.state_as_line().composed_bounds(options).loosened(
            POS_INDICATOR_RADIUS + POS_INDICATOR_OUTLINE_WIDTH,
        )
    }

    /// Draws the rough line, then the handles on its two points.
    pub fn draw_composed(&self, options: &RoughOptions, entropy: u64) -> (ops: Vec<DrawOp>)
        requires
            self.wf(),
            options.wf(),
        ensures
            steps(ops@) == self.spec_draw_composed(*options, entropy),
            fill_precedes_stroke(steps(ops@)),
            saves_balanced(steps(ops@)),
            plan_lands_within(steps(ops@), None, self.spec_composed_bounds(*options)),
    {
        let line = self.state_as_line();
        let inner: Vec<DrawOp> = line.draw_composed(options, entropy);
        with_marks(
            saved(),
            inner,
            drag_marks(self.start, self.current),
            Ghost(None),
            Ghost(line.spec_composed_bounds(*options)),
            Ghost(self.spec_composed_bounds(*options)),
            Ghost(1),
        )
    }
}

/// Half of a span, rounded up.
pub open spec fn spec_half_span(a: int, b: int) -> int {
    (spec_abs(b - a) + 1) / 2
}

impl RectangleBuilder {
    /// Whether both points are in the coordinate range.
    pub open spec fn wf(self) -> bool {
        self.start.in_range() && self.current.in_range()
    }

    /// The upright rectangle with the two points as opposite corners: its
    /// centre lies half way between them, rounded towards the first.
    pub open spec fn spec_state_as_rect(self) -> Rectangle {
        Rectangle {
            transform: Transform {
                a: TRANSFORM_ONE,
                b: 0,
                c: 0,
                d: TRANSFORM_ONE,
                tx: spec_lerp(self.start.x as int, self.current.x as int, 1, 2) as i64,
                ty: spec_lerp(self.start.y as int, self.current.y as int, 1, 2) as i64,
            },
            half_extents: Point {
                x: spec_half_span(self.start.x as int, self.current.x as int) as i64,
                y: spec_half_span(self.start.y as int, self.current.y as int) as i64,
            },
        }
    }

    /// The bounds of the rough rectangle, loosened by the handle's reach.
    pub open spec fn spec_composed_bounds(self, options: RoughOptions) -> Region {
        self.spec_state_as_rect().spec_composed_bounds(options).loosened(INDICATOR_REACH as int)
    }

    /// The steps that draw the rough rectangle and the handles on its two
    /// corners.
    pub open spec fn spec_draw_composed(self, options: RoughOptions, entropy: u64) -> Seq<DrawStep> {
        seq![DrawStep::Save] + self.spec_state_as_rect().spec_draw_composed(options, entropy)
            + spec_drag_marks(self.start, self.current)
    }

    /// The upright rectangle with the two points as opposite corners.
    pub fn state_as_rect(&self) -> (rect: Rectangle)
        requires
            self.wf(),
        ensures
            rect == self.spec_state_as_rect(),
            rect.wf(),
    {
        proof {
            lemma_lerp_between(self.start.x as int, self.current.x as int, 1, 2);
            lemma_lerp_between(self.start.y as int, self.current.y as int, 1, 2);
        }
        let half_x: i64 = (abs_i64(self.current.x - self.start.x) + 1) / 2;
        let half_y: i64 = (abs_i64(self.current.y - self.start.y) + 1) / 2;
        Rectangle {
            transform: Transform {
                a: TRANSFORM_ONE,
                b: 0,
                c: 0,
                d: TRANSFORM_ONE,
                tx: lerp(self.start.x, self.current.x, 1, 2),
                ty: lerp(self.start.y, self.current.y, 1, 2),
            },
            half_extents: Point { x: half_x, y: half_y },
        }
    }

    /// The bounds of the rough rectangle and its handles.
    pub fn composed_bounds(&self, options: &RoughOptions) -> (b: Aabb)
        requires
            self.wf(),
            options.wf(),
        ensures
            b@ == self.spec_composed_bounds(*options),
    {
        self.state_as_rect().composed_bounds(options).loosened(
            POS_INDICATOR_RADIUS + POS_INDICATOR_OUTLINE_WIDTH,
        )
    }

    /// Draws the rough rectangle, then the handles on its two corners.
    pub fn draw_composed(&self, options: &RoughOptions, entropy: u64) -> (ops: Vec<DrawOp>)
        requires
            self.wf(),
            options.wf(),
        ensures
            steps(ops@) == self.spec_draw_composed(*options, entropy),
            fill_precedes_stroke(steps(ops@)),
            saves_balanced(steps(ops@)),
            plan_lands_within(
                steps(ops@),
                Some(self.spec_state_as_rect().transform),
                self.spec_composed_bounds(*options),
            ),
    {
        let rect = self.state_as_rect();
        let inner: Vec<DrawOp> = rect.draw_composed(options, entropy);
        proof {
            lemma_translation_keeps_margin(rect.transform);
        }
        with_marks(
            saved(),
            inner,
            drag_marks(self.start, self.current),
            Ghost(Some(rect.transform)),
            Ghost(rect.spec_composed_bounds(*options)),
            Ghost(self.spec_composed_bounds(*options)),
            Ghost(1),
        )
    }
}

impl EllipseBuilder {
    /// Whether both points are in the coordinate range and the second is no
    /// farther from the first, on either axis, than a radius may be.
    pub open spec fn wf(self) -> bool {
        &&& self.start.in_range()
        &&& self.current.in_range()
        &&& spec_abs(self.current.x - self.start.x) <= COORD_MAX
        &&& spec_abs(self.current.y - self.start.y) <= COORD_MAX
    }

    /// The upright ellipse round the first point whose box has the second
    /// point as a corner.
    pub open spec fn spec_state_as_ellipse(self) -> Ellipse {
        Ellipse {
            transform: Transform {
                a: TRANSFORM_ONE,
                b: 0,
                c: 0,
                d: TRANSFORM_ONE,
                tx: self.start.x,
                ty: self.start.y,
            },
            radii: Point {
                x: spec_abs(self.current.x - self.start.x) as i64,
                y: spec_abs(self.current.y - self.start.y) as i64,
            },
        }
    }

    /// The bounds of the rough ellipse, loosened by the handle's reach.
    pub open spec fn spec_composed_bounds(self, options: RoughOptions) -> Region {
        self.spec_state_as_ellipse().spec_composed_bounds(options).loosened(
            INDICATOR_REACH as int,
        )
    }

    /// The steps that draw the rough ellipse and the handles on its two
    /// points.
    pub open spec fn spec_draw_composed(self, options: RoughOptions, entropy: u64) -> Seq<DrawStep> {
        seq![DrawStep::Save] + self.spec_state_as_ellipse().spec_draw_composed(options, entropy)
            + spec_drag_marks(self.start, self.current)
    }

    /// The upright ellipse round the first point whose box has the second
    /// point as a corner.
    pub fn state_as_ellipse(&self) -> (ellipse: Ellipse)
        requires
            self.wf(),
        ensures
            ellipse == self.spec_state_as_ellipse(),
            ellipse.wf(),
    {
        Ellipse {
            transform: Transform {
                a: TRANSFORM_ONE,
                b: 0,
                c: 0,
                d: TRANSFORM_ONE,
                tx: self.start.x,
                ty: self.start.y,
            },
            radii: Point {
                x: abs_i64(self.current.x - self.start.x),
                y: abs_i64(self.current.y - self.start.y),
            },
        }
    }

    /// The bounds of the rough ellipse and its handles.
    pub fn composed_bounds(&self, options: &RoughOptions) -> (b: Aabb)
        requires
            self.wf(),
            options.wf(),
        ensures
            b@ == self.spec_composed_bounds(*options),
    {
        self.state_as_ellipse().composed_bounds(options).loosened(
            POS_INDICATOR_RADIUS + POS_INDICATOR_OUTLINE_WIDTH,
        )
    }

    /// Draws the rough ellipse, then the handles on its two points.
    pub fn draw_composed(&self, options: &RoughOptions, entropy: u64) -> (ops: Vec<DrawOp>)
        requires
            self.wf(),
            options.wf(),
        ensures
            steps(ops@) == self.spec_draw_composed(*options, entropy),
            fill_precedes_stroke(steps(ops@)),
            saves_balanced(steps(ops@)),
            plan_lands_within(
                steps(ops@),
                Some(self.spec_state_as_ellipse().transform),
                self.spec_composed_bounds(*options),
            ),
    {
        let ellipse = self.state_as_ellipse();
        let inner: Vec<DrawOp> = ellipse.draw_composed(options, entropy);
        proof {
            lemma_translation_keeps_margin(ellipse.transform);
        }
        with_marks(
            saved(),
            inner,
            drag_marks(self.start, self.current),
            Ghost(Some(ellipse.transform)),
            Ghost(ellipse.spec_composed_bounds(*options)),
            Ghost(self.spec_composed_bounds(*options)),
            Ghost(1),
        )
    }
}

/// Draws an ellipse that is given by its foci and a point, with the vectors
/// from the foci to the point and the handles on the three points.
fn draw_given_ellipse(
    ellipse: &Ellipse,
    foci: FociPair,
    point: Point,
    options: &RoughOptions,
    entropy: u64,
    Ghost(region): Ghost<Region>,
) -> (ops: Vec<DrawOp>)
    requires
        ellipse.wf(),
        options.wf(),
        keeps_margin(ellipse.transform),
        region == ellipse.spec_composed_bounds(*options).loosened(INDICATOR_REACH as int),
    ensures
        steps(ops@) == seq![DrawStep::Save, DrawStep::Save] + ellipse.spec_draw_composed(
            *options,
            entropy,
        ) + FociEllipseBuilder::spec_marks(foci, point),
        fill_precedes_stroke(steps(ops@)),
        plan_lands_within(steps(ops@), Some(ellipse.transform), region),
        saves_balanced(steps(ops@)),
{
    let inner: Vec<DrawOp> = ellipse.draw_composed(options, entropy);
    let mut before: Vec<DrawOp> = saved();
    push_save(&mut before, Ghost(0));
    assert(steps(before@) =~= seq![DrawStep::Save, DrawStep::Save]);
    let mut after: Vec<DrawOp> = no_ops();
    push_restore(&mut after, Ghost(2));
    push_vec(&mut after, PenState::Down, foci.first, point, Ghost(2));
    push_vec(&mut after, PenState::Down, foci.second, point, Ghost(2));
    push_pos(&mut after, PenState::Up, foci.first, Ghost(2));
    push_pos(&mut after, PenState::Up, foci.second, Ghost(2));
    push_pos(&mut after, PenState::Down, point, Ghost(2));
    push_restore(&mut after, Ghost(2));
    assert(steps(after@) =~= FociEllipseBuilder::spec_marks(foci, point));
    with_marks(
        before,
        inner,
        after,
        Ghost(Some(ellipse.transform)),
        Ghost(ellipse.spec_composed_bounds(*options)),
        Ghost(region),
        Ghost(2),
    )
}

impl FociEllipseBuilder {
    /// Whether the known points are in range: the coordinate range while
    /// the ellipse is not yet given, the narrower range of foci once it is.
    pub open spec fn wf(self) -> bool {
        match self.state {
            FociEllipseBuilderState::First(point) => point.in_range(),
            FociEllipseBuilderState::Foci(foci) => foci.first.in_range()
                && foci.second.in_range(),
            FociEllipseBuilderState::FociAndPoint { foci, point } => foci_ok(foci.first) && foci_ok(
                foci.second,
            ) && foci_ok(point),
        }
    }

    /// The transform under which the ellipse is drawn, once it is given.
    pub open spec fn spec_transform(self) -> Option<Transform> {
        match self.state {
            FociEllipseBuilderState::FociAndPoint { foci, point } => Some(
                spec_from_foci_and_point(foci.first, foci.second, point).transform,
            ),
            _ => None,
        }
    }

    /// The bounds of what is drawn: round the known points while the ellipse
    /// is not yet given; then those of the rough ellipse, loosened by the
    /// handle's reach.
    pub open spec fn spec_composed_bounds(self, options: RoughOptions) -> Region {
        match self.state {
            FociEllipseBuilderState::First(point) => spec_point_bounds(point, options),
            FociEllipseBuilderState::Foci(foci) => spec_pair_bounds(
                foci.first,
                foci.second,
                options,
            ),
            FociEllipseBuilderState::FociAndPoint { foci, point } => spec_from_foci_and_point(
                foci.first,
                foci.second,
                point,
            ).spec_composed_bounds(options).loosened(INDICATOR_REACH as int),
        }
    }

    /// The marks drawn over the ellipse once it is given: a vector from each
    /// focus to the point, and the handles on the three points.
    pub open spec fn spec_marks(foci: FociPair, point: Point) -> Seq<DrawStep> {
        seq![
            DrawStep::Restore,
            spec_vec(PenState::Down, foci.first, point),
            spec_vec(PenState::Down, foci.second, point),
            spec_pos(PenState::Up, foci.first),
            spec_pos(PenState::Up, foci.second),
            spec_pos(PenState::Down, point),
            DrawStep::Restore,
        ]
    }

    /// The steps that draw the state: handles only while the ellipse is not
    /// yet given; then the rough ellipse, vectors and handles.
    pub open spec fn spec_draw_composed(self, options: RoughOptions, entropy: u64) -> Seq<DrawStep> {
        match self.state {
            FociEllipseBuilderState::First(point) => seq![
                DrawStep::Save,
                spec_pos(PenState::Down, point),
                DrawStep::Restore,
            ],
            FociEllipseBuilderState::Foci(foci) => seq![
                DrawStep::Save,
                spec_pos(PenState::Up, foci.first),
                spec_pos(PenState::Up, foci.second),
                DrawStep::Restore,
            ],
            FociEllipseBuilderState::FociAndPoint { foci, point } => seq![
                DrawStep::Save,
                DrawStep::Save,
            ] + spec_from_foci_and_point(foci.first, foci.second, point).spec_draw_composed(
                options,
                entropy,
            ) + Self::spec_marks(foci, point),
        }
    }

    /// The bounds of what is drawn of the state.
    pub fn composed_bounds(&self, options: &RoughOptions) -> (b: Aabb)
        requires
            self.wf(),
            options.wf(),
        ensures
            b@ == self.spec_composed_bounds(*options),
    {
        match self.state {
            FociEllipseBuilderState::First(point) => point_bounds(point, options),
            FociEllipseBuilderState::Foci(foci) => pair_bounds(foci.first, foci.second, options),
            FociEllipseBuilderState::FociAndPoint { foci, point } => {
                let ellipse: Ellipse = Ellipse::from_foci_and_point(foci.first, foci.second, point);
                ellipse.composed_bounds(options).loosened(
                    POS_INDICATOR_RADIUS + POS_INDICATOR_OUTLINE_WIDTH,
                )
            },
        }
    }

    /// Draws the state: handles on the known foci; once the ellipse is
    /// given, the rough ellipse, a vector from each focus to the point, and
    /// the handles on the three points.
    pub fn draw_composed(&self, options: &RoughOptions, entropy: u64) -> (ops: Vec<DrawOp>)
        requires
            self.wf(),
            options.wf(),
        ensures
            steps(ops@) == self.spec_draw_composed(*options, entropy),
            fill_precedes_stroke(steps(ops@)),
            saves_balanced(steps(ops@)),
            plan_lands_within(
                steps(ops@),
                self.spec_transform(),
                self.spec_composed_bounds(*options),
            ),
            !(self.state is FociAndPoint) ==> all_marks(steps(ops@)),
    {
        let mut ops: Vec<DrawOp> = saved();
        match self.state {
            FociEllipseBuilderState::First(point) => {
                push_pos(&mut ops, PenState::Down, point, Ghost(0));
                push_restore(&mut ops, Ghost(0));
                assert(steps(ops@) =~= self.spec_draw_composed(*options, entropy));
            },
            FociEllipseBuilderState::Foci(foci) => {
                push_pos(&mut ops, PenState::Up, foci.first, Ghost(0));
                push_pos(&mut ops, PenState::Up, foci.second, Ghost(0));
                push_restore(&mut ops, Ghost(0));
                assert(steps(ops@) =~= self.spec_draw_composed(*options, entropy));
            },
            FociEllipseBuilderState::FociAndPoint { foci, point } => {
                let ellipse: Ellipse = Ellipse::from_foci_and_point(foci.first, foci.second, point);
                proof {
                    lemma_contraction_keeps_margin(ellipse.transform);
                }
                ops = draw_given_ellipse(
                    &ellipse,
                    foci,
                    point,
                    options,
                    entropy,
                    Ghost(self.spec_composed_bounds(*options)),
                );
            },
        }
        ops
    }
}

/// The marks on three points of a curve: the vector to the control point
/// and the handles on the three points.
fn quad_marks(start: Point, cp: Point, end: Point) -> (ops: Vec<DrawOp>)
    ensures
        steps(ops@) == QuadBezBuilder::spec_marks(start, cp, end),
        all_marks(steps(ops@)),
        saves_balanced(steps(ops@)),
{
    let mut ops: Vec<DrawOp> = no_ops();
    push_vec(&mut ops, PenState::Down, start, cp, Ghost(0));
    push_pos(&mut ops, PenState::Up, start, Ghost(0));
    push_pos(&mut ops, PenState::Up, cp, Ghost(0));
    push_pos(&mut ops, PenState::Down, end, Ghost(0));
    assert(steps(ops@) =~= QuadBezBuilder::spec_marks(start, cp, end));
    ops
}

/// The marks on the four points of a cubic curve: the vector from each end
/// to its control point and the handles on the four points.
fn cubic_marks(start: Point, cp1: Point, cp2: Point, end: Point) -> (ops: Vec<DrawOp>)
    ensures
        steps(ops@) == CubBezBuilder::spec_marks_end(start, cp1, cp2, end),
        all_marks(steps(ops@)),
        saves_balanced(steps(ops@)),
{
    let mut ops: Vec<DrawOp> = no_ops();
    push_vec(&mut ops, PenState::Down, start, cp1, Ghost(0));
    push_vec(&mut ops, PenState::Down, cp2, end, Ghost(0));
    push_pos(&mut ops, PenState::Up, start, Ghost(0));
    push_pos(&mut ops, PenState::Up, cp1, Ghost(0));
    push_pos(&mut ops, PenState::Up, cp2, Ghost(0));
    push_pos(&mut ops, PenState::Down, end, Ghost(0));
    assert(steps(ops@) =~= CubBezBuilder::spec_marks_end(start, cp1, cp2, end));
    ops
}

/// Puts the marks of a curve behind the steps that draw it.
fn draw_given_curve(inner: Vec<DrawOp>, marks: Vec<DrawOp>, Ghost(inner_region): Ghost<Region>) -> (ops:
    Vec<DrawOp>)
    requires
        all_marks(steps(marks@)),
        saves_balanced(steps(marks@)),
        fill_precedes_stroke(steps(inner@)),
        saves_balanced(steps(inner@)),
        plan_lands_within(steps(inner@), None, inner_region),
    ensures
        steps(ops@) == steps(inner@) + steps(marks@),
        fill_precedes_stroke(steps(ops@)),
        saves_balanced(steps(ops@)),
        plan_lands_within(
            steps(ops@),
            None,
            inner_region.loosened(INDICATOR_REACH as int),
        ),
{
    let ops: Vec<DrawOp> = with_marks(
        no_ops(),
        inner,
        marks,
        Ghost(None),
        Ghost(inner_region),
        Ghost(inner_region.loosened(INDICATOR_REACH as int)),
        Ghost(0),
    );
    assert(Seq::<DrawStep>::empty() + steps(inner@) =~= steps(inner@));
    ops
}

impl QuadBezBuilder {
    /// Whether the known points are in the coordinate range.
    pub open spec fn wf(self) -> bool {
        match self.state {
            QuadBezBuilderState::Start(start) => start.in_range(),
            QuadBezBuilderState::Cp { start, cp } => start.in_range() && cp.in_range(),
            QuadBezBuilderState::End { start, cp, end } => start.in_range() && cp.in_range()
                && end.in_range(),
        }
    }

    /// The bounds of what is drawn: round the known points while the curve
    /// is not yet given; then those of the rough curve, loosened by the
    /// handle's reach.
    pub open spec fn spec_composed_bounds(self, options: RoughOptions) -> Region {
        match self.state {
            QuadBezBuilderState::Start(start) => spec_point_bounds(start, options),
            QuadBezBuilderState::Cp { start, cp } => spec_pair_bounds(start, cp, options),
            QuadBezBuilderState::End { start, cp, end } => (QuadraticBezier {
                start,
                cp,
                end,
            }).spec_composed_bounds(options).loosened(INDICATOR_REACH as int),
        }
    }

    /// The marks on a curve that is given: the vector to the control point
    /// and the handles on the three points.
    pub open spec fn spec_marks(start: Point, cp: Point, end: Point) -> Seq<DrawStep> {
        seq![
            spec_vec(PenState::Down, start, cp),
            spec_pos(PenState::Up, start),
            spec_pos(PenState::Up, cp),
            spec_pos(PenState::Down, end),
        ]
    }

    /// The steps that draw the state: marks only while the curve is not yet
    /// given; then the rough curve and the marks.
    pub open spec fn spec_draw_composed(self, options: RoughOptions, entropy: u64) -> Seq<DrawStep> {
        match self.state {
            QuadBezBuilderState::Start(start) => seq![spec_pos(PenState::Down, start)],
            QuadBezBuilderState::Cp { start, cp } => seq![
                spec_vec(PenState::Down, start, cp),
                spec_pos(PenState::Up, start),
                spec_pos(PenState::Down, cp),
            ],
            QuadBezBuilderState::End { start, cp, end } => (QuadraticBezier {
                start,
                cp,
                end,
            }).spec_draw_composed(options, entropy) + Self::spec_marks(start, cp, end),
        }
    }

    /// The bounds of what is drawn of the state.
    pub fn composed_bounds(&self, options: &RoughOptions) -> (b: Aabb)
        requires
            self.wf(),
            options.wf(),
        ensures
            b@ == self.spec_composed_bounds(*options),
    {
        match self.state {
            QuadBezBuilderState::Start(start) => point_bounds(start, options),
            QuadBezBuilderState::Cp { start, cp } => pair_bounds(start, cp, options),
            QuadBezBuilderState::End { start, cp, end } => {
                let quadbez: QuadraticBezier = QuadraticBezier { start, cp, end };
                quadbez.composed_bounds(options).loosened(
                    POS_INDICATOR_RADIUS + POS_INDICATOR_OUTLINE_WIDTH,
                )
            },
        }
    }

    /// Draws the state: marks on the known points; once the curve is given,
    /// the rough curve before them.
    pub fn draw_composed(&self, options: &RoughOptions, entropy: u64) -> (ops: Vec<DrawOp>)
        requires
            self.wf(),
            options.wf(),
        ensures
            steps(ops@) == self.spec_draw_composed(*options, entropy),
            fill_precedes_stroke(steps(ops@)),
            saves_balanced(steps(ops@)),
            plan_lands_within(steps(ops@), None, self.spec_composed_bounds(*options)),
            !(self.state is End) ==> all_marks(steps(ops@)),
    {
        let mut ops: Vec<DrawOp> = no_ops();
        match self.state {
            QuadBezBuilderState::Start(start) => {
                push_pos(&mut ops, PenState::Down, start, Ghost(0));
                assert(steps(ops@) =~= self.spec_draw_composed(*options, entropy));
            },
            QuadBezBuilderState::Cp { start, cp } => {
                push_vec(&mut ops, PenState::Down, start, cp, Ghost(0));
                push_pos(&mut ops, PenState::Up, start, Ghost(0));
                push_pos(&mut ops, PenState::Down, cp, Ghost(0));
                assert(steps(ops@) =~= self.spec_draw_composed(*options, entropy));
            },
            QuadBezBuilderState::End { start, cp, end } => {
                let quadbez: QuadraticBezier = QuadraticBezier { start, cp, end };
                ops = draw_given_curve(
                    quadbez.draw_composed(options, entropy),
                    quad_marks(start, cp, end),
                    Ghost(quadbez.spec_composed_bounds(*options)),
                );
            },
        }
        ops
    }
}

impl CubBezBuilder {
    /// Whether the known points are in the coordinate range.
    pub open spec fn wf(self) -> bool {
        match self.state {
            CubBezBuilderState::Start(start) => start.in_range(),
            CubBezBuilderState::Cp1 { start, cp1 } => start.in_range() && cp1.in_range(),
            CubBezBuilderState::Cp2 { start, cp1, cp2 } => start.in_range() && cp1.in_range()
                && cp2.in_range(),
            CubBezBuilderState::End { start, cp1, cp2, end } => start.in_range() && cp1.in_range()
                && cp2.in_range() && end.in_range(),
        }
    }

    /// The bounds of what is drawn: round the known points while fewer than
    /// three are given; then those of the rough curve through the known
    /// points, loosened by the handle's reach.
    pub open spec fn spec_composed_bounds(self, options: RoughOptions) -> Region {
        match self.state {
            CubBezBuilderState::Start(start) => spec_point_bounds(start, options),
            CubBezBuilderState::Cp1 { start, cp1 } => spec_pair_bounds(start, cp1, options),
            CubBezBuilderState::Cp2 { start, cp1, cp2 } => (QuadraticBezier {
                start,
                cp: cp1,
                end: cp2,
            }).spec_composed_bounds(options).loosened(INDICATOR_REACH as int),
            CubBezBuilderState::End { start, cp1, cp2, end } => (CubicBezier {
                start,
                cp1,
                cp2,
                end,
            }).spec_composed_bounds(options).loosened(INDICATOR_REACH as int),
        }
    }

    /// The marks while the second control point is the last point known:
    /// the vector to the first control point and the handles on the three
    /// points.
    pub open spec fn spec_marks_cp2(start: Point, cp1: Point, cp2: Point) -> Seq<DrawStep> {
        QuadBezBuilder::spec_marks(start, cp1, cp2)
    }

    /// The marks on a curve that is given: the vector from each end to its
    /// control point and the handles on the four points.
    pub open spec fn spec_marks_end(start: Point, cp1: Point, cp2: Point, end: Point) -> Seq<
        DrawStep,
    > {
        seq![
            spec_vec(PenState::Down, start, cp1),
            spec_vec(PenState::Down, cp2, end),
            spec_pos(PenState::Up, start),
            spec_pos(PenState::Up, cp1),
            spec_pos(PenState::Up, cp2),
            spec_pos(PenState::Down, end),
        ]
    }

    /// The steps that draw the state: marks only while fewer than three
    /// points are known; with three, the rough quadratic curve through them
    /// and the marks; with four, the rough cubic curve and the marks.
    pub open spec fn spec_draw_composed(self, options: RoughOptions, entropy: u64) -> Seq<DrawStep> {
        match self.state {
            CubBezBuilderState::Start(start) => seq![spec_pos(PenState::Down, start)],
            CubBezBuilderState::Cp1 { start, cp1 } => seq![
                spec_vec(PenState::Down, start, cp1),
                spec_pos(PenState::Up, start),
                spec_pos(PenState::Down, cp1),
            ],
            CubBezBuilderState::Cp2 { start, cp1, cp2 } => (QuadraticBezier {
                start,
                cp: cp1,
                end: cp2,
            }).spec_draw_composed(options, entropy) + Self::spec_marks_cp2(start, cp1, cp2),
            CubBezBuilderState::End { start, cp1, cp2, end } => (CubicBezier {
                start,
                cp1,
                cp2,
                end,
            }).spec_draw_composed(options, entropy) + Self::spec_marks_end(start, cp1, cp2, end),
        }
    }

    /// The bounds of what is drawn of the state.
    pub fn composed_bounds(&self, options: &RoughOptions) -> (b: Aabb)
        requires
            self.wf(),
            options.wf(),
        ensures
            b@ == self.spec_composed_bounds(*options),
    {
        match self.state {
            CubBezBuilderState::Start(start) => point_bounds(start, options),
            CubBezBuilderState::Cp1 { start, cp1 } => pair_bounds(start, cp1, options),
            CubBezBuilderState::Cp2 { start, cp1, cp2 } => {
                let quadbez: QuadraticBezier = QuadraticBezier { start, cp: cp1, end: cp2 };
                quadbez.composed_bounds(options).loosened(
                    POS_INDICATOR_RADIUS + POS_INDICATOR_OUTLINE_WIDTH,
                )
            },
            CubBezBuilderState::End { start, cp1, cp2, end } => {
                let cubbez: CubicBezier = CubicBezier { start, cp1, cp2, end };
                cubbez.composed_bounds(options).loosened(
                    POS_INDICATOR_RADIUS + POS_INDICATOR_OUTLINE_WIDTH,
                )
            },
        }
    }

    /// Draws the state: marks on the known points; with three points, the
    /// rough quadratic curve through them before the marks; with four, the
    /// rough cubic curve.
    pub fn draw_composed(&self, options: &RoughOptions, entropy: u64) -> (ops: Vec<DrawOp>)
        requires
            self.wf(),
            options.wf(),
        ensures
            steps(ops@) == self.spec_draw_composed(*options, entropy),
            fill_precedes_stroke(steps(ops@)),
            saves_balanced(steps(ops@)),
            plan_lands_within(steps(ops@), None, self.spec_composed_bounds(*options)),
            (self.state is Start || self.state is Cp1) ==> all_marks(steps(ops@)),
    {
        let mut ops: Vec<DrawOp> = no_ops();
        match self.state {
            CubBezBuilderState::Start(start) => {
                push_pos(&mut ops, PenState::Down, start, Ghost(0));
                assert(steps(ops@) =~= self.spec_draw_composed(*options, entropy));
            },
            CubBezBuilderState::Cp1 { start, cp1 } => {
                push_vec(&mut ops, PenState::Down, start, cp1, Ghost(0));
                push_pos(&mut ops, PenState::Up, start, Ghost(0));
                push_pos(&mut ops, PenState::Down, cp1, Ghost(0));
                assert(steps(ops@) =~= self.spec_draw_composed(*options, entropy));
            },
            CubBezBuilderState::Cp2 { start, cp1, cp2 } => {
                let quadbez: QuadraticBezier = QuadraticBezier { start, cp: cp1, end: cp2 };
                ops = draw_given_curve(
                    quadbez.draw_composed(options, entropy),
                    quad_marks(start, cp1, cp2),
                    Ghost(quadbez.spec_composed_bounds(*options)),
                );
            },
            CubBezBuilderState::End { start, cp1, cp2, end } => {
                let cubbez: CubicBezier = CubicBezier { start, cp1, cp2, end };
                ops = draw_given_curve(
                    cubbez.draw_composed(options, entropy),
                    cubic_marks(start, cp1, cp2, end),
                    Ghost(cubbez.spec_composed_bounds(*options)),
                );
            },
        }
        ops
    }
}

/// A builder drawn with a seed gives the same steps whatever entropy the
/// draw call is handed.
pub proof fn lemma_seeded_builders_repeat(
    line: LineBuilder,
    rectangle: RectangleBuilder,
    ellipse: EllipseBuilder,
    foci: FociEllipseBuilder,
    quadbez: QuadBezBuilder,
    cubbez: CubBezBuilder,
    options: RoughOptions,
    first: u64,
    second: u64,
)
    requires
        options.seed is Some,
    ensures
        line.spec_draw_composed(options, first) == line.spec_draw_composed(options, second),
        rectangle.spec_draw_composed(options, first) == rectangle.spec_draw_composed(
            options,
            second,
        ),
        ellipse.spec_draw_composed(options, first) == ellipse.spec_draw_composed(options, second),
        foci.spec_draw_composed(options, first) == foci.spec_draw_composed(options, second),
        quadbez.spec_draw_composed(options, first) == quadbez.spec_draw_composed(options, second),
        cubbez.spec_draw_composed(options, first) == cubbez.spec_draw_composed(options, second),
{
}

} // verus!
