//! Rough quadratic and cubic curves: the control points are displaced, the
//! curve is cut into chords, and each chord is drawn by the line engine.

use vstd::prelude::*;
use crate::arith::{clamp_i64, coord_ok, spec_clamp, spec_max, spec_min, COORD_MAX};
use crate::geom::{Point, Region};
use crate::line::{amplitude, lemma_amplitude_range, lemma_line_properties, line, spec_amplitude,
    spec_line, GAIN_ONE, LINE_JITTER_CAP};
use crate::options::RoughOptions;
use crate::path::{lemma_path_within_concat, lemma_path_within_wider, lemma_segment_count_concat,
    path_within, segment_count, PathEl};
use crate::rng::{lemma_symmetric_range, RoughRng, AMPLITUDE_MAX};

verus! {

/// Farthest that a control point of a curve is displaced on one axis, in units.
pub const CONTROL_JITTER_CAP: i64 = 1536;

/// Farthest that a point of a rough curve lies from the box around the
/// curve's control points: the displacement of the control points and the
/// jitter of the chords together.
pub const CURVE_JITTER_CAP: i64 = 3584;

/// Fewest chords that a curve is cut into.
pub const MIN_CURVE_STEPS: i64 = 4;

/// Most chords that a curve is cut into.
pub const MAX_CURVE_STEPS: i64 = 64;

/// The four points that span a curve. A quadratic curve holds its end twice
/// and gives the last point no weight.
#[derive(Clone, Copy, Debug, PartialEq, Eq, Structural)]
pub struct Controls {
    /// Start of the curve.
    pub p0: Point,
    /// First control point.
    pub p1: Point,
    /// Second control point; the end of a quadratic curve.
    pub p2: Point,
    /// End of the curve.
    pub p3: Point,
}

impl Controls {
    /// Whether the four points are in the range the generators accept.
    pub open spec fn in_range(self) -> bool {
        self.p0.in_range() && self.p1.in_range() && self.p2.in_range() && self.p3.in_range()
    }

    /// The smallest box around the four points.
    pub open spec fn spec_hull(self) -> Region {
        Region::spanning(self.p0, self.p1).including(self.p2).including(self.p3)
    }
}

/// The weights of the four points for the point `k / n` of the way along a
/// curve: the Bernstein polynomials of degree 3, or of degree 2 with no
/// weight on the last point.
pub open spec fn spec_weights(cubic: bool, k: int, n: int) -> (int, int, int, int) {
    if cubic {
        (
            (n - k) * (n - k) * (n - k),
            3 * k * (n - k) * (n - k),
            3 * k * k * (n - k),
            k * k * k,
        )
    } else {
        ((n - k) * (n - k), 2 * k * (n - k), k * k, 0)
    }
}

/// The weighted mean of four numbers, rounded down towards the smallest of
/// them.
pub open spec fn spec_blend(v: (int, int, int, int), w: (int, int, int, int)) -> int {
    let m = spec_min(spec_min(v.0, v.1), spec_min(v.2, v.3));
    m + (w.0 * (v.0 - m) + w.1 * (v.1 - m) + w.2 * (v.2 - m) + w.3 * (v.3 - m)) / (w.0 + w.1
        + w.2 + w.3)
}

/// The point `k / n` of the way along the curve.
pub open spec fn spec_curve_point(ctrl: Controls, cubic: bool, k: int, n: int) -> Point {
    let w = spec_weights(cubic, k, n);
    Point {
        x: spec_blend(
            (ctrl.p0.x as int, ctrl.p1.x as int, ctrl.p2.x as int, ctrl.p3.x as int),
            w,
        ) as i64,
        y: spec_blend(
            (ctrl.p0.y as int, ctrl.p1.y as int, ctrl.p2.y as int, ctrl.p3.y as int),
            w,
        ) as i64,
    }
}

/// Number of chords that a curve is cut into: the step count of the
/// options, held between the fewest and the most.
pub open spec fn spec_curve_steps(options: RoughOptions) -> int {
    spec_clamp(options.curve_stepcount as int, MIN_CURVE_STEPS as int, MAX_CURVE_STEPS as int)
}

/// How far the control points of a curve are displaced: the randomness
/// offset, half as much again for an overlay pass, scaled by the roughness
/// and capped.
pub open spec fn spec_control_reach(overlay: bool, options: RoughOptions) -> int {
    let base = if overlay {
        options.max_randomness_offset + options.max_randomness_offset / 2
    } else {
        options.max_randomness_offset as int
    };
    spec_amplitude(base, options.roughness as int, GAIN_ONE as int, CONTROL_JITTER_CAP as int)
}

/// `p` displaced on each axis by a draw from `[-reach, reach]` and held in
/// the coordinate range, and the random source after the two draws.
pub open spec fn spec_nudged(p: Point, reach: int, rng: RoughRng) -> (Point, RoughRng) {
    let (dx, r1) = rng.spec_symmetric(reach);
    let (dy, r2) = r1.spec_symmetric(reach);
    (
        Point {
            x: spec_clamp(p.x + dx, -COORD_MAX as int, COORD_MAX as int) as i64,
            y: spec_clamp(p.y + dy, -COORD_MAX as int, COORD_MAX as int) as i64,
        },
        r2,
    )
}

/// The rough lines over the first `upto` of the `n` chords of a curve, and
/// the random source after them. The first chord begins with a move; each
/// later one goes on from the end of the chord before it.
pub open spec fn spec_chords(
    ctrl: Controls,
    cubic: bool,
    n: int,
    overlay: bool,
    options: RoughOptions,
    rng: RoughRng,
    upto: int,
) -> (Seq<PathEl>, RoughRng)
    decreases upto,
{
    if upto <= 0 {
        (Seq::empty(), rng)
    } else {
        let (before, r) = spec_chords(ctrl, cubic, n, overlay, options, rng, upto - 1);
        let (seg, r2) = spec_line(
            spec_curve_point(ctrl, cubic, upto - 1, n),
            spec_curve_point(ctrl, cubic, upto, n),
            upto == 1,
            overlay,
            options,
            r,
        );
        (before + seg, r2)
    }
}

/// The controls of one pass over a curve: the control points displaced, the
/// ends left where they are; and the random source after the draws. A
/// quadratic curve takes two draws, a cubic curve four.
pub open spec fn spec_pass_controls(
    ctrl: Controls,
    cubic: bool,
    overlay: bool,
    options: RoughOptions,
    rng: RoughRng,
) -> (Controls, RoughRng) {
    let reach = spec_control_reach(overlay, options);
    let (j1, r1) = spec_nudged(ctrl.p1, reach, rng);
    if cubic {
        let (j2, r2) = spec_nudged(ctrl.p2, reach, r1);
        (Controls { p0: ctrl.p0, p1: j1, p2: j2, p3: ctrl.p3 }, r2)
    } else {
        (Controls { p0: ctrl.p0, p1: j1, p2: ctrl.p2, p3: ctrl.p3 }, r1)
    }
}

/// One pass over a curve, and the random source after it.
pub open spec fn spec_curve_pass(
    ctrl: Controls,
    cubic: bool,
    overlay: bool,
    options: RoughOptions,
    rng: RoughRng,
) -> (Seq<PathEl>, RoughRng) {
    let (moved, r) = spec_pass_controls(ctrl, cubic, overlay, options, rng);
    let n = spec_curve_steps(options);
    spec_chords(moved, cubic, n, overlay, options, r, n)
}

/// A rough curve: one pass, and an overlay pass behind it unless
/// multistroke is disabled; and the random source after it.
pub open spec fn spec_curve(ctrl: Controls, cubic: bool, options: RoughOptions, rng: RoughRng) -> (
    Seq<PathEl>,
    RoughRng,
) {
    let (first, r1) = spec_curve_pass(ctrl, cubic, false, options, rng);
    if options.disable_multistroke {
        (first, r1)
    } else {
        let (second, r2) = spec_curve_pass(ctrl, cubic, true, options, r1);
        (first + second, r2)
    }
}

/// The rough quadratic curve from `start` over `cp` to `end`.
pub open spec fn spec_quadratic_bezier(
    start: Point,
    cp: Point,
    end: Point,
    options: RoughOptions,
    rng: RoughRng,
) -> (Seq<PathEl>, RoughRng) {
    spec_curve(Controls { p0: start, p1: cp, p2: end, p3: end }, false, options, rng)
}

/// The rough cubic curve from `start` over `cp1` and `cp2` to `end`.
pub open spec fn spec_cubic_bezier(
    start: Point,
    cp1: Point,
    cp2: Point,
    end: Point,
    options: RoughOptions,
    rng: RoughRng,
) -> (Seq<PathEl>, RoughRng) {
    spec_curve(Controls { p0: start, p1: cp1, p2: cp2, p3: end }, true, options, rng)
}

/// Number of commands of a rough curve: a move and one curve for each chord,
/// once for each pass.
pub open spec fn spec_curve_len(options: RoughOptions) -> int {
    if options.disable_multistroke {
        spec_curve_steps(options) + 1
    } else {
        2 * (spec_curve_steps(options) + 1)
    }
}

/// Number of segments of a rough curve: one for each chord of each pass.
pub open spec fn spec_curve_segments(options: RoughOptions) -> int {
    if options.disable_multistroke {
        spec_curve_steps(options)
    } else {
        2 * spec_curve_steps(options)
    }
}

/// The weights are not negative, and they add up to more than 0 and no more
/// than four times the cube of the most chords.
pub proof fn lemma_weights(cubic: bool, k: int, n: int)
    requires
        0 <= k <= n,
        1 <= n <= MAX_CURVE_STEPS,
    ensures
        ({
            let w = spec_weights(cubic, k, n);
            &&& 0 <= w.0 <= 786432
            &&& 0 <= w.1 <= 786432
            &&& 0 <= w.2 <= 786432
            &&& 0 <= w.3 <= 786432
            &&& 0 < w.0 + w.1 + w.2 + w.3
            &&& k == 0 ==> w.1 == 0 && w.2 == 0 && w.3 == 0
            &&& k == n ==> w.0 == 0 && w.1 == 0 && (if cubic {
                w.2 == 0
            } else {
                w.3 == 0
            })
        }),
{
    let a = n - k;
    assert(0 <= a * a <= 4096 && 0 <= k * k <= 4096 && 0 <= k * a <= 4096) by (nonlinear_arith)
        requires
            0 <= a <= 64,
            0 <= k <= 64,
    ;
    assert(a * a * a == (a * a) * a && k * k * k == (k * k) * k && 3 * k * a * a == 3 * ((k * a)
        * a) && 3 * k * k * a == 3 * ((k * k) * a) && 2 * k * a == 2 * (k * a))
        by (nonlinear_arith);
    assert(0 <= (a * a) * a <= 262144 && 0 <= (k * k) * k <= 262144 && 0 <= (k * a) * a
        <= 262144 && 0 <= (k * k) * a <= 262144) by (nonlinear_arith)
        requires
            0 <= a <= 64,
            0 <= k <= 64,
            0 <= a * a <= 4096,
            0 <= k * k <= 4096,
            0 <= k * a <= 4096,
    ;
    assert((a * a) * a + (k * k) * k > 0 && a * a + k * k > 0) by (nonlinear_arith)
        requires
            0 <= a,
            0 <= k,
            a + k >= 1,
    ;
    if k == 0 {
        assert(k * a == 0 && k * k == 0 && (k * a) * a == 0 && (k * k) * a == 0 && (k * k) * k
            == 0) by (nonlinear_arith)
            requires
                k == 0,
        ;
    }
    if a == 0 {
        assert(k * a == 0 && a * a == 0 && (k * a) * a == 0 && (k * k) * a == 0 && (a * a) * a
            == 0) by (nonlinear_arith)
            requires
                a == 0,
        ;
    }
}

/// A weighted mean lies between the smallest and the largest of its numbers,
/// and is the one number that has all the weight.
pub proof fn lemma_blend_between(v: (int, int, int, int), w: (int, int, int, int))
    requires
        0 <= w.0,
        0 <= w.1,
        0 <= w.2,
        0 <= w.3,
        0 < w.0 + w.1 + w.2 + w.3,
    ensures
        spec_min(spec_min(v.0, v.1), spec_min(v.2, v.3)) <= spec_blend(v, w) <= spec_max(
            spec_max(v.0, v.1),
            spec_max(v.2, v.3),
        ),
        (w.1 == 0 && w.2 == 0 && w.3 == 0) ==> spec_blend(v, w) == v.0,
        (w.0 == 0 && w.1 == 0 && w.3 == 0) ==> spec_blend(v, w) == v.2,
        (w.0 == 0 && w.1 == 0 && w.2 == 0) ==> spec_blend(v, w) == v.3,
{
    let m = spec_min(spec_min(v.0, v.1), spec_min(v.2, v.3));
    let top = spec_max(spec_max(v.0, v.1), spec_max(v.2, v.3));
    let d = top - m;
    let sum = w.0 + w.1 + w.2 + w.3;
    let t0 = w.0 * (v.0 - m);
    let t1 = w.1 * (v.1 - m);
    let t2 = w.2 * (v.2 - m);
    let t3 = w.3 * (v.3 - m);
    assert(0 <= t0 <= w.0 * d) by (nonlinear_arith)
        requires
            0 <= w.0,
            0 <= v.0 - m <= d,
            t0 == w.0 * (v.0 - m),
    ;
    assert(0 <= t1 <= w.1 * d) by (nonlinear_arith)
        requires
            0 <= w.1,
            0 <= v.1 - m <= d,
            t1 == w.1 * (v.1 - m),
    ;
    assert(0 <= t2 <= w.2 * d) by (nonlinear_arith)
        requires
            0 <= w.2,
            0 <= v.2 - m <= d,
            t2 == w.2 * (v.2 - m),
    ;
    assert(0 <= t3 <= w.3 * d) by (nonlinear_arith)
        requires
            0 <= w.3,
            0 <= v.3 - m <= d,
            t3 == w.3 * (v.3 - m),
    ;
    let num = t0 + t1 + t2 + t3;
    assert(w.0 * d + w.1 * d + w.2 * d + w.3 * d == sum * d) by (nonlinear_arith)
        requires
            sum == w.0 + w.1 + w.2 + w.3,
    ;
    assert(0 <= num / sum <= d) by (nonlinear_arith)
        requires
            0 <= num <= sum * d,
            0 < sum,
    ;
    if w.1 == 0 && w.2 == 0 && w.3 == 0 {
        assert(t1 == 0 && t2 == 0 && t3 == 0) by (nonlinear_arith)
            requires
                w.1 == 0,
                w.2 == 0,
                w.3 == 0,
                t1 == w.1 * (v.1 - m),
                t2 == w.2 * (v.2 - m),
                t3 == w.3 * (v.3 - m),
        ;
        assert((w.0 * (v.0 - m)) / w.0 == v.0 - m) by (nonlinear_arith)
            requires
                0 < w.0,
        ;
    }
    if w.0 == 0 && w.1 == 0 && w.3 == 0 {
        assert(t0 == 0 && t1 == 0 && t3 == 0) by (nonlinear_arith)
            requires
                w.0 == 0,
                w.1 == 0,
                w.3 == 0,
                t0 == w.0 * (v.0 - m),
                t1 == w.1 * (v.1 - m),
                t3 == w.3 * (v.3 - m),
        ;
        assert((w.2 * (v.2 - m)) / w.2 == v.2 - m) by (nonlinear_arith)
            requires
                0 < w.2,
        ;
    }
    if w.0 == 0 && w.1 == 0 && w.2 == 0 {
        assert(t0 == 0 && t1 == 0 && t2 == 0) by (nonlinear_arith)
            requires
                w.0 == 0,
                w.1 == 0,
                w.2 == 0,
                t0 == w.0 * (v.0 - m),
                t1 == w.1 * (v.1 - m),
                t2 == w.2 * (v.2 - m),
        ;
        assert((w.3 * (v.3 - m)) / w.3 == v.3 - m) by (nonlinear_arith)
            requires
                0 < w.3,
        ;
    }
}

/// A point of a curve lies in the box around the curve's four points; the
/// first point of a curve is its start and the last its end.
pub proof fn lemma_curve_point(ctrl: Controls, cubic: bool, k: int, n: int)
    requires
        ctrl.in_range(),
        0 <= k <= n,
        1 <= n <= MAX_CURVE_STEPS,
    ensures
        ctrl.spec_hull().contains(spec_curve_point(ctrl, cubic, k, n)),
        spec_curve_point(ctrl, cubic, k, n).in_range(),
        k == 0 ==> spec_curve_point(ctrl, cubic, k, n) == ctrl.p0,
        (k == n && cubic) ==> spec_curve_point(ctrl, cubic, k, n) == ctrl.p3,
        (k == n && !cubic) ==> spec_curve_point(ctrl, cubic, k, n) == ctrl.p2,
{
    lemma_weights(cubic, k, n);
    let w = spec_weights(cubic, k, n);
    lemma_blend_between(
        (ctrl.p0.x as int, ctrl.p1.x as int, ctrl.p2.x as int, ctrl.p3.x as int),
        w,
    );
    lemma_blend_between(
        (ctrl.p0.y as int, ctrl.p1.y as int, ctrl.p2.y as int, ctrl.p3.y as int),
        w,
    );
}

/// The reach of the control points lies between 0 and its cap.
pub proof fn lemma_control_reach(overlay: bool, options: RoughOptions)
    requires
        options.wf(),
    ensures
        0 <= spec_control_reach(overlay, options) <= CONTROL_JITTER_CAP,
{
    let base = if overlay {
        options.max_randomness_offset + options.max_randomness_offset / 2
    } else {
        options.max_randomness_offset as int
    };
    lemma_amplitude_range(
        base,
        options.roughness as int,
        GAIN_ONE as int,
        CONTROL_JITTER_CAP as int,
    );
}

/// A displaced control point stays in range and within the reach of the
/// point it came from.
pub proof fn lemma_nudged_near(p: Point, reach: int, rng: RoughRng)
    requires
        p.in_range(),
        0 <= reach,
    ensures
        spec_nudged(p, reach, rng).0.in_range(),
        spec_nudged(p, reach, rng).0.near(p, reach),
{
    lemma_symmetric_range(rng, reach);
    lemma_symmetric_range(rng.spec_step(), reach);
}

/// The controls of a pass are in range, and the box around them lies in the
/// box around the curve's own points, loosened by the control jitter cap.
pub proof fn lemma_pass_controls(
    ctrl: Controls,
    cubic: bool,
    overlay: bool,
    options: RoughOptions,
    rng: RoughRng,
)
    requires
        ctrl.in_range(),
        options.wf(),
    ensures
        spec_pass_controls(ctrl, cubic, overlay, options, rng).0.in_range(),
        spec_pass_controls(ctrl, cubic, overlay, options, rng).0.spec_hull().within(
            ctrl.spec_hull().loosened(CONTROL_JITTER_CAP as int),
        ),
        spec_pass_controls(ctrl, cubic, overlay, options, rng).0.p0 == ctrl.p0,
        spec_pass_controls(ctrl, cubic, overlay, options, rng).0.p3 == ctrl.p3,
        !cubic ==> spec_pass_controls(ctrl, cubic, overlay, options, rng).0.p2 == ctrl.p2,
{
    lemma_control_reach(overlay, options);
    let reach = spec_control_reach(overlay, options);
    lemma_nudged_near(ctrl.p1, reach, rng);
    let (j1, r1) = spec_nudged(ctrl.p1, reach, rng);
    lemma_nudged_near(ctrl.p2, reach, r1);
}

/// The rough lines over the chords of a curve lie in the box around the
/// curve's four points, loosened by the line's jitter cap.
pub proof fn lemma_chords_within(
    ctrl: Controls,
    cubic: bool,
    n: int,
    overlay: bool,
    options: RoughOptions,
    rng: RoughRng,
    upto: int,
)
    requires
        ctrl.in_range(),
        options.wf(),
        1 <= n <= MAX_CURVE_STEPS,
        0 <= upto <= n,
    ensures
        path_within(
            spec_chords(ctrl, cubic, n, overlay, options, rng, upto).0,
            ctrl.spec_hull().loosened(LINE_JITTER_CAP as int),
        ),
    decreases upto,
{
    if upto > 0 {
        lemma_chords_within(ctrl, cubic, n, overlay, options, rng, upto - 1);
        let (before, r) = spec_chords(ctrl, cubic, n, overlay, options, rng, upto - 1);
        let a = spec_curve_point(ctrl, cubic, upto - 1, n);
        let b = spec_curve_point(ctrl, cubic, upto, n);
        lemma_curve_point(ctrl, cubic, upto - 1, n);
        lemma_curve_point(ctrl, cubic, upto, n);
        let (seg, r2) = spec_line(a, b, upto == 1, overlay, options, r);
        lemma_line_properties(a, b, upto == 1, overlay, options, r);
        lemma_path_within_wider(
            seg,
            Region::spanning(a, b).loosened(LINE_JITTER_CAP as int),
            ctrl.spec_hull().loosened(LINE_JITTER_CAP as int),
        );
        lemma_path_within_concat(before, seg, ctrl.spec_hull().loosened(LINE_JITTER_CAP as int));
    }
}

/// Every point of a rough curve lies in the box around the curve's four
/// points, loosened by the curve's jitter cap.
pub proof fn lemma_curve_within(ctrl: Controls, cubic: bool, options: RoughOptions, rng: RoughRng)
    requires
        ctrl.in_range(),
        options.wf(),
    ensures
        path_within(
            spec_curve(ctrl, cubic, options, rng).0,
            ctrl.spec_hull().loosened(CURVE_JITTER_CAP as int),
        ),
{
    let region = ctrl.spec_hull().loosened(CURVE_JITTER_CAP as int);
    let n = spec_curve_steps(options);
    let (m1, r0) = spec_pass_controls(ctrl, cubic, false, options, rng);
    lemma_pass_controls(ctrl, cubic, false, options, rng);
    lemma_chords_within(m1, cubic, n, false, options, r0, n);
    let (first, r1) = spec_curve_pass(ctrl, cubic, false, options, rng);
    lemma_path_within_wider(first, m1.spec_hull().loosened(LINE_JITTER_CAP as int), region);
    if !options.disable_multistroke {
        let (m2, r2) = spec_pass_controls(ctrl, cubic, true, options, r1);
        lemma_pass_controls(ctrl, cubic, true, options, r1);
        lemma_chords_within(m2, cubic, n, true, options, r2, n);
        let (second, r3) = spec_curve_pass(ctrl, cubic, true, options, r1);
        lemma_path_within_wider(second, m2.spec_hull().loosened(LINE_JITTER_CAP as int), region);
        lemma_path_within_concat(first, second, region);
    }
}

/// The weights of the four points for the point `k / n` of the way along a curve.
fn weights(cubic: bool, k: i64, n: i64) -> (w: (i64, i64, i64, i64))
    requires
        0 <= k <= n,
        1 <= n <= MAX_CURVE_STEPS,
    ensures
        (w.0 as int, w.1 as int, w.2 as int, w.3 as int) == spec_weights(
            cubic,
            k as int,
            n as int,
        ),
{
    proof {
        lemma_weights(cubic, k as int, n as int);
    }
    let a: i64 = n - k;
    assert(0 <= a * a <= 4096 && 0 <= k * k <= 4096 && 0 <= k * a <= 4096) by (nonlinear_arith)
        requires
            0 <= a <= 64,
            0 <= k <= 64,
    ;
    let aa: i64 = a * a;
    let kk: i64 = k * k;
    let ka: i64 = k * a;
    if cubic {
        assert(0 <= aa * a <= 262144 && 0 <= kk * k <= 262144 && 0 <= ka * a <= 262144 && 0
            <= kk * a <= 262144) by (nonlinear_arith)
            requires
                0 <= a <= 64,
                0 <= k <= 64,
                0 <= aa <= 4096,
                0 <= kk <= 4096,
                0 <= ka <= 4096,
        ;
        assert(3 * (ka * a) == 3 * k * a * a && 3 * (kk * a) == 3 * k * k * a) by (nonlinear_arith)
            requires
                ka == k * a,
                kk == k * k,
        ;
        (aa * a, 3 * (ka * a), 3 * (kk * a), kk * k)
    } else {
        assert(2 * ka == 2 * k * a) by (nonlinear_arith)
            requires
                ka == k * a,
        ;
        (aa, 2 * ka, kk, 0)
    }
}

/// The weighted mean of four coordinates, rounded down towards the smallest.
fn blend(v: (i64, i64, i64, i64), w: (i64, i64, i64, i64)) -> (r: i64)
    requires
        coord_ok(v.0 as int),
        coord_ok(v.1 as int),
        coord_ok(v.2 as int),
        coord_ok(v.3 as int),
        0 <= w.0 <= 786432,
        0 <= w.1 <= 786432,
        0 <= w.2 <= 786432,
        0 <= w.3 <= 786432,
        0 < w.0 + w.1 + w.2 + w.3,
    ensures
        r == spec_blend(
            (v.0 as int, v.1 as int, v.2 as int, v.3 as int),
            (w.0 as int, w.1 as int, w.2 as int, w.3 as int),
        ),
        coord_ok(r as int),
{
    proof {
        lemma_blend_between(
            (v.0 as int, v.1 as int, v.2 as int, v.3 as int),
            (w.0 as int, w.1 as int, w.2 as int, w.3 as int),
        );
    }
    let m01: i64 = if v.0 <= v.1 {
        v.0
    } else {
        v.1
    };
    let m23: i64 = if v.2 <= v.3 {
        v.2
    } else {
        v.3
    };
    let m: i64 = if m01 <= m23 {
        m01
    } else {
        m23
    };
    let t0: i64 = weighted(w.0, v.0 - m);
    let t1: i64 = weighted(w.1, v.1 - m);
    let t2: i64 = weighted(w.2, v.2 - m);
    let t3: i64 = weighted(w.3, v.3 - m);
    m + (t0 + t1 + t2 + t3) / (w.0 + w.1 + w.2 + w.3)
}

/// A weight times a distance.
fn weighted(w: i64, d: i64) -> (r: i64)
    requires
        0 <= w <= 786432,
        0 <= d <= 2 * COORD_MAX,
    ensures
        r == w * d,
        0 <= r <= 786432 * (2 * COORD_MAX),
{
    assert(0 <= w * d <= 786432 * 2147483648) by (nonlinear_arith)
        requires
            0 <= w <= 786432,
            0 <= d <= 2147483648,
    ;
    w * d
}

/// The point `k / n` of the way along the curve.
pub fn curve_point(ctrl: &Controls, cubic: bool, k: i64, n: i64) -> (p: Point)
    requires
        ctrl.in_range(),
        0 <= k <= n,
        1 <= n <= MAX_CURVE_STEPS,
    ensures
        p == spec_curve_point(*ctrl, cubic, k as int, n as int),
        p.in_range(),
        ctrl.spec_hull().contains(p),
{
    proof {
        lemma_weights(cubic, k as int, n as int);
        lemma_curve_point(*ctrl, cubic, k as int, n as int);
    }
    let w: (i64, i64, i64, i64) = weights(cubic, k, n);
    let x: i64 = blend((ctrl.p0.x, ctrl.p1.x, ctrl.p2.x, ctrl.p3.x), w);
    let y: i64 = blend((ctrl.p0.y, ctrl.p1.y, ctrl.p2.y, ctrl.p3.y), w);
    Point { x, y }
}

/// Number of chords that a curve is cut into.
pub fn curve_steps(options: &RoughOptions) -> (n: i64)
    ensures
        n == spec_curve_steps(*options),
        MIN_CURVE_STEPS <= n <= MAX_CURVE_STEPS,
{
    clamp_i64(options.curve_stepcount, MIN_CURVE_STEPS, MAX_CURVE_STEPS)
}

/// Displaces `p` on each axis by a draw from `[-reach, reach]` and holds it
/// in the coordinate range.
pub fn nudged(p: Point, reach: i64, rng: &mut RoughRng) -> (r: Point)
    requires
        p.in_range(),
        0 <= reach <= AMPLITUDE_MAX,
    ensures
        r == spec_nudged(p, reach as int, *old(rng)).0,
        *final(rng) == spec_nudged(p, reach as int, *old(rng)).1,
        r.in_range(),
        r.near(p, reach as int),
{
    proof {
        lemma_nudged_near(p, reach as int, *rng);
    }
    let dx: i64 = rng.symmetric(reach);
    let dy: i64 = rng.symmetric(reach);
    Point {
        x: clamp_i64(p.x + dx, -COORD_MAX, COORD_MAX),
        y: clamp_i64(p.y + dy, -COORD_MAX, COORD_MAX),
    }
}

/// Displaces the control points for one pass over a curve.
fn pass_controls(
    ctrl: &Controls,
    cubic: bool,
    overlay: bool,
    options: &RoughOptions,
    rng: &mut RoughRng,
) -> (moved: Controls)
    requires
        ctrl.in_range(),
        options.wf(),
    ensures
        moved == spec_pass_controls(*ctrl, cubic, overlay, *options, *old(rng)).0,
        *final(rng) == spec_pass_controls(*ctrl, cubic, overlay, *options, *old(rng)).1,
{
    proof {
        lemma_control_reach(overlay, *options);
    }
    let base: i64 = if overlay {
        options.max_randomness_offset + options.max_randomness_offset / 2
    } else {
        options.max_randomness_offset
    };
    let reach: i64 = amplitude(base, options.roughness, GAIN_ONE, CONTROL_JITTER_CAP);
    let j1: Point = nudged(ctrl.p1, reach, rng);
    if cubic {
        let j2: Point = nudged(ctrl.p2, reach, rng);
        Controls { p0: ctrl.p0, p1: j1, p2: j2, p3: ctrl.p3 }
    } else {
        Controls { p0: ctrl.p0, p1: j1, p2: ctrl.p2, p3: ctrl.p3 }
    }
}

/// Draws the chords of one pass over a curve whose control points are
/// already displaced.
fn chords(ctrl: &Controls, cubic: bool, overlay: bool, options: &RoughOptions, rng: &mut RoughRng) -> (path:
    Vec<PathEl>)
    requires
        ctrl.in_range(),
        options.wf(),
    ensures
        path@ == spec_chords(
            *ctrl,
            cubic,
            spec_curve_steps(*options),
            overlay,
            *options,
            *old(rng),
            spec_curve_steps(*options),
        ).0,
        *final(rng) == spec_chords(
            *ctrl,
            cubic,
            spec_curve_steps(*options),
            overlay,
            *options,
            *old(rng),
            spec_curve_steps(*options),
        ).1,
        path_within(path@, ctrl.spec_hull().loosened(LINE_JITTER_CAP as int)),
        path@.len() == spec_curve_steps(*options) + 1,
        segment_count(path@) == spec_curve_steps(*options),
{
    let n: i64 = curve_steps(options);
    let mut path: Vec<PathEl> = Vec::new();
    let mut prev: Point = curve_point(ctrl, cubic, 0, n);
    let mut k: i64 = 0;
    assert(segment_count(path@) == 0);
    while k < n
        invariant
            0 <= k <= n,
            n == spec_curve_steps(*options),
            MIN_CURVE_STEPS <= n <= MAX_CURVE_STEPS,
            ctrl.in_range(),
            options.wf(),
            prev == spec_curve_point(*ctrl, cubic, k as int, n as int),
            prev.in_range(),
            ctrl.spec_hull().contains(prev),
            path@ == spec_chords(*ctrl, cubic, n as int, overlay, *options, *old(rng), k as int).0,
            *rng == spec_chords(*ctrl, cubic, n as int, overlay, *options, *old(rng), k as int).1,
            path_within(path@, ctrl.spec_hull().loosened(LINE_JITTER_CAP as int)),
            path@.len() == if k == 0 {
                0
            } else {
                k + 1
            },
            segment_count(path@) == k,
        decreases n - k,
    {
        let next: Point = curve_point(ctrl, cubic, k + 1, n);
        let ghost before = path@;
        let mut seg: Vec<PathEl> = line(prev, next, k == 0, overlay, options, rng);
        proof {
            lemma_path_within_wider(
                seg@,
                Region::spanning(prev, next).loosened(LINE_JITTER_CAP as int),
                ctrl.spec_hull().loosened(LINE_JITTER_CAP as int),
            );
            lemma_path_within_concat(
                before,
                seg@,
                ctrl.spec_hull().loosened(LINE_JITTER_CAP as int),
            );
            lemma_segment_count_concat(before, seg@);
        }
        path.append(&mut seg);
        prev = next;
        k = k + 1;
    }
    path
}

/// Draws one pass over a curve.
fn curve_pass(ctrl: &Controls, cubic: bool, overlay: bool, options: &RoughOptions, rng: &mut RoughRng) -> (path:
    Vec<PathEl>)
    requires
        ctrl.in_range(),
        options.wf(),
    ensures
        path@ == spec_curve_pass(*ctrl, cubic, overlay, *options, *old(rng)).0,
        *final(rng) == spec_curve_pass(*ctrl, cubic, overlay, *options, *old(rng)).1,
        path_within(path@, ctrl.spec_hull().loosened(CURVE_JITTER_CAP as int)),
        path@.len() == spec_curve_steps(*options) + 1,
        segment_count(path@) == spec_curve_steps(*options),
{
    proof {
        lemma_pass_controls(*ctrl, cubic, overlay, *options, *rng);
    }
    let moved: Controls = pass_controls(ctrl, cubic, overlay, options, rng);
    let path: Vec<PathEl> = chords(&moved, cubic, overlay, options, rng);
    proof {
        lemma_path_within_wider(
            path@,
            moved.spec_hull().loosened(LINE_JITTER_CAP as int),
            ctrl.spec_hull().loosened(CURVE_JITTER_CAP as int),
        );
    }
    path
}

/// Draws a rough curve: one pass, and an overlay pass behind it unless
/// multistroke is disabled.
fn curve(ctrl: &Controls, cubic: bool, options: &RoughOptions, rng: &mut RoughRng) -> (path: Vec<
    PathEl,
>)
    requires
        ctrl.in_range(),
        options.wf(),
    ensures
        path@ == spec_curve(*ctrl, cubic, *options, *old(rng)).0,
        *final(rng) == spec_curve(*ctrl, cubic, *options, *old(rng)).1,
        path_within(path@, ctrl.spec_hull().loosened(CURVE_JITTER_CAP as int)),
        path@.len() == spec_curve_len(*options),
        segment_count(path@) == spec_curve_segments(*options),
{
    let mut path: Vec<PathEl> = curve_pass(ctrl, cubic, false, options, rng);
    if !options.disable_multistroke {
        let ghost first = path@;
        let mut second: Vec<PathEl> = curve_pass(ctrl, cubic, true, options, rng);
        proof {
            lemma_path_within_concat(
                first,
                second@,
                ctrl.spec_hull().loosened(CURVE_JITTER_CAP as int),
            );
            lemma_segment_count_concat(first, second@);
        }
        path.append(&mut second);
    }
    path
}

/// Draws the rough quadratic curve from `start` over `cp` to `end`.
///
/// The control point is displaced, the curve is cut into chords, and each
/// chord is drawn as a rough line that goes on from the one before it.
/// Unless multistroke is disabled, a second pass with displacements of its
/// own follows.
pub fn quadratic_bezier(
    start: Point,
    cp: Point,
    end: Point,
    options: &RoughOptions,
    rng: &mut RoughRng,
) -> (path: Vec<PathEl>)
    requires
        start.in_range(),
        cp.in_range(),
        end.in_range(),
        options.wf(),
    ensures
        path@ == spec_quadratic_bezier(start, cp, end, *options, *old(rng)).0,
        *final(rng) == spec_quadratic_bezier(start, cp, end, *options, *old(rng)).1,
        path_within(
            path@,
            Region::spanning(start, cp).including(end).loosened(CURVE_JITTER_CAP as int),
        ),
        path@.len() == spec_curve_len(*options),
        segment_count(path@) == spec_curve_segments(*options),
{
    let ctrl: Controls = Controls { p0: start, p1: cp, p2: end, p3: end };
    let path: Vec<PathEl> = curve(&ctrl, false, options, rng);
    proof {
        lemma_path_within_wider(
            path@,
            ctrl.spec_hull().loosened(CURVE_JITTER_CAP as int),
            Region::spanning(start, cp).including(end).loosened(CURVE_JITTER_CAP as int),
        );
    }
    path
}

/// Draws the rough cubic curve from `start` over `cp1` and `cp2` to `end`.
///
/// Both control points are displaced, the curve is cut into chords, and each
/// chord is drawn as a rough line that goes on from the one before it.
/// Unless multistroke is disabled, a second pass with displacements of its
/// own follows.
pub fn cubic_bezier(
    start: Point,
    cp1: Point,
    cp2: Point,
    end: Point,
    options: &RoughOptions,
    rng: &mut RoughRng,
) -> (path: Vec<PathEl>)
    requires
        start.in_range(),
        cp1.in_range(),
        cp2.in_range(),
        end.in_range(),
        options.wf(),
    ensures
        path@ == spec_cubic_bezier(start, cp1, cp2, end, *options, *old(rng)).0,
        *final(rng) == spec_cubic_bezier(start, cp1, cp2, end, *options, *old(rng)).1,
        path_within(
            path@,
            Region::spanning(start, cp1).including(cp2).including(end).loosened(
                CURVE_JITTER_CAP as int,
            ),
        ),
        path@.len() == spec_curve_len(*options),
        segment_count(path@) == spec_curve_segments(*options),
{
    let ctrl: Controls = Controls { p0: start, p1: cp1, p2: cp2, p3: end };
    curve(&ctrl, true, options, rng)
}

} // verus!
