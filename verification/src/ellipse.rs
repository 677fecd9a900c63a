//! Rough ellipses: the ellipse is sampled in steps of equal angle, each
//! sample is displaced, and a closed smooth curve is laid through the
//! displaced samples.

use vstd::prelude::*;
use crate::arith::{coord_ok, lemma_lerp_between, lerp, spec_abs, spec_lerp, spec_max, COORD_MAX};
use crate::curve::{lemma_nudged_near, nudged, spec_nudged};
use crate::geom::{Point, Region};
use crate::line::{amplitude, lemma_amplitude_range, spec_amplitude, GAIN_ONE};
use crate::options::RoughOptions;
use crate::path::{lemma_path_within_concat, lemma_segment_count_concat, path_within,
    segment_count, PathEl};
use crate::rng::{lemma_below_range, RoughRng};
use crate::trig::{cos_turn, lemma_trig_range, sin_turn, spec_cos_turn, spec_sin_turn, TRIG_ONE,
    TURN};

verus! {

/// Farthest that a sample of an ellipse is displaced on one axis, in units.
pub const ELLIPSE_JITTER_CAP: i64 = 1536;

/// Fewest samples taken of an ellipse.
pub const MIN_SAMPLES: i64 = 16;

/// Larger radius, in units, from which an ellipse gets 32 samples.
pub const MEDIUM_RADIUS: i64 = 8192;

/// Larger radius, in units, from which an ellipse gets 64 samples.
pub const LARGE_RADIUS: i64 = 65536;

/// What the ellipse generator gives back.
#[derive(Debug, PartialEq, Eq)]
pub struct EllipseResult {
    /// The closed outline, one closed sub-path for each pass.
    pub bez_path: Vec<PathEl>,
    /// The displaced samples of the first pass, in order round the ellipse.
    /// They are the vertices that the fill is made from.
    pub estimated_points: Vec<Point>,
}

/// The mathematical value of an [`EllipseResult`].
pub struct EllipseModel {
    /// The commands of the outline.
    pub bez_path: Seq<PathEl>,
    /// The displaced samples of the first pass.
    pub estimated_points: Seq<Point>,
}

impl View for EllipseResult {
    type V = EllipseModel;

    open spec fn view(&self) -> EllipseModel {
        EllipseModel { bez_path: self.bez_path@, estimated_points: self.estimated_points@ }
    }
}

/// Number of samples of an ellipse: 16 for a small one, 32 from a larger
/// radius of 32 pixels, 64 from one of 256 pixels.
pub open spec fn spec_sample_count(radius_x: int, radius_y: int) -> int {
    let r = spec_max(radius_x, radius_y);
    if r < MEDIUM_RADIUS {
        16
    } else if r < LARGE_RADIUS {
        32
    } else {
        64
    }
}

/// A radius scaled by a sine or cosine, rounded towards zero.
pub open spec fn spec_scaled(radius: int, t: int) -> int {
    if t >= 0 {
        (radius * t) / (TRIG_ONE as int)
    } else {
        -((radius * (-t)) / (TRIG_ONE as int))
    }
}

/// The direction of sample `i` of `n`, where sample 0 lies in direction `first`.
pub open spec fn spec_sample_direction(first: int, i: int, n: int) -> int {
    (first + i * (64int / n)) % 64
}

/// The point of the ellipse in direction `k`.
pub open spec fn spec_ideal_sample(center: Point, radius_x: int, radius_y: int, k: int) -> Point {
    Point {
        x: (center.x + spec_scaled(radius_x, spec_cos_turn(k))) as i64,
        y: (center.y + spec_scaled(radius_y, spec_sin_turn(k))) as i64,
    }
}

/// How far the samples of an ellipse are displaced: the randomness offset,
/// half as much again for an overlay pass, scaled by the roughness and capped.
pub open spec fn spec_sample_reach(overlay: bool, options: RoughOptions) -> int {
    let base = if overlay {
        options.max_randomness_offset + options.max_randomness_offset / 2
    } else {
        options.max_randomness_offset as int
    };
    spec_amplitude(base, options.roughness as int, GAIN_ONE as int, ELLIPSE_JITTER_CAP as int)
}

/// The first `upto` displaced samples of an ellipse, and the random source
/// after them.
pub open spec fn spec_samples(
    center: Point,
    radius_x: int,
    radius_y: int,
    first: int,
    reach: int,
    rng: RoughRng,
    upto: int,
) -> (Seq<Point>, RoughRng)
    decreases upto,
{
    if upto <= 0 {
        (Seq::empty(), rng)
    } else {
        let (before, r) = spec_samples(center, radius_x, radius_y, first, reach, rng, upto - 1);
        let k = spec_sample_direction(first, upto - 1, spec_sample_count(radius_x, radius_y));
        let (p, r2) = spec_nudged(spec_ideal_sample(center, radius_x, radius_y, k), reach, r);
        (before.push(p), r2)
    }
}

/// The displaced samples of one pass round an ellipse, and the random source
/// after it. The first draw picks the direction of the first sample.
pub open spec fn spec_ellipse_pass(
    center: Point,
    radius_x: int,
    radius_y: int,
    overlay: bool,
    options: RoughOptions,
    rng: RoughRng,
) -> (Seq<Point>, RoughRng) {
    let (first, r1) = rng.spec_below(TURN as int);
    spec_samples(
        center,
        radius_x,
        radius_y,
        first,
        spec_sample_reach(overlay, options),
        r1,
        spec_sample_count(radius_x, radius_y),
    )
}

/// The point half way from `a` to `b`.
pub open spec fn spec_midpoint(a: Point, b: Point) -> Point {
    Point {
        x: spec_lerp(a.x as int, b.x as int, 1, 2) as i64,
        y: spec_lerp(a.y as int, b.y as int, 1, 2) as i64,
    }
}

/// The point two thirds of the way from `a` to `b`.
pub open spec fn spec_two_thirds(a: Point, b: Point) -> Point {
    Point {
        x: spec_lerp(a.x as int, b.x as int, 2, 3) as i64,
        y: spec_lerp(a.y as int, b.y as int, 2, 3) as i64,
    }
}

/// The sample before sample `i` on the closed round of `n` samples.
pub open spec fn spec_before(i: int, n: int) -> int {
    if i == 0 {
        n - 1
    } else {
        i - 1
    }
}

/// The sample after sample `i` on the closed round of `n` samples.
pub open spec fn spec_after(i: int, n: int) -> int {
    if i + 1 == n {
        0
    } else {
        i + 1
    }
}

/// The curve that rounds the corner at sample `i`: from the middle of the
/// side before it to the middle of the side after it, bent towards the sample.
pub open spec fn spec_corner(samples: Seq<Point>, i: int) -> PathEl {
    let n = samples.len() as int;
    let from = spec_midpoint(samples[spec_before(i, n)], samples[i]);
    let to = spec_midpoint(samples[i], samples[spec_after(i, n)]);
    PathEl::CurveTo(spec_two_thirds(from, samples[i]), spec_two_thirds(to, samples[i]), to)
}

/// The outline through the samples up to, not including, corner `upto`: a
/// move to the middle of the last side, then one curve for each corner.
pub open spec fn spec_outline(samples: Seq<Point>, upto: int) -> Seq<PathEl>
    decreases upto,
{
    if upto <= 0 {
        seq![PathEl::MoveTo(spec_midpoint(samples[samples.len() - 1], samples[0]))]
    } else {
        spec_outline(samples, upto - 1).push(spec_corner(samples, upto - 1))
    }
}

/// The closed outline through the samples.
pub open spec fn spec_closed_outline(samples: Seq<Point>) -> Seq<PathEl> {
    spec_outline(samples, samples.len() as int).push(PathEl::ClosePath)
}

/// The rough ellipse and the random source after it: the outline of one
/// pass, that of an overlay pass behind it unless multistroke is disabled,
/// and the samples of the first pass.
pub open spec fn spec_ellipse(
    center: Point,
    radius_x: int,
    radius_y: int,
    options: RoughOptions,
    rng: RoughRng,
) -> (EllipseModel, RoughRng) {
    let (first, r1) = spec_ellipse_pass(center, radius_x, radius_y, false, options, rng);
    if options.disable_multistroke {
        (EllipseModel { bez_path: spec_closed_outline(first), estimated_points: first }, r1)
    } else {
        let (second, r2) = spec_ellipse_pass(center, radius_x, radius_y, true, options, r1);
        (
            EllipseModel {
                bez_path: spec_closed_outline(first) + spec_closed_outline(second),
                estimated_points: first,
            },
            r2,
        )
    }
}

/// Whether the ellipse lies in the range the generators accept.
pub open spec fn ellipse_in_range(center: Point, radius_x: int, radius_y: int) -> bool {
    &&& 0 <= radius_x
    &&& 0 <= radius_y
    &&& coord_ok(center.x - radius_x)
    &&& coord_ok(center.x + radius_x)
    &&& coord_ok(center.y - radius_y)
    &&& coord_ok(center.y + radius_y)
}

/// Whether every point of the list lies in `region`.
pub open spec fn points_within(points: Seq<Point>, region: Region) -> bool {
    forall|i: int| 0 <= i < points.len() ==> region.contains(#[trigger] points[i])
}

/// A scaled radius is no longer than the radius.
pub proof fn lemma_scaled_range(radius: int, t: int)
    requires
        0 <= radius,
        -TRIG_ONE <= t <= TRIG_ONE,
    ensures
        -radius <= spec_scaled(radius, t) <= radius,
{
    let m = spec_abs(t);
    assert(0 <= (radius * m) / 4096 <= radius) by (nonlinear_arith)
        requires
            0 <= radius,
            0 <= m <= 4096,
    ;
}

/// The direction of a sample is one of the 64 directions.
pub proof fn lemma_sample_direction(first: int, i: int, n: int)
    requires
        0 <= first < TURN,
        0 <= i < n,
        n == 16 || n == 32 || n == 64,
    ensures
        0 <= spec_sample_direction(first, i, n) < TURN,
        0 <= first + i * (64int / n) < 2 * TURN,
{
    let stride = 64int / n;
    assert(0 <= i * stride <= (n - 1) * stride) by (nonlinear_arith)
        requires
            0 <= i <= n - 1,
            0 <= stride,
    ;
}

/// A point of the ellipse lies in the box around the ellipse.
pub proof fn lemma_ideal_sample(center: Point, radius_x: int, radius_y: int, k: int)
    requires
        ellipse_in_range(center, radius_x, radius_y),
        0 <= k < TURN,
    ensures
        spec_ideal_sample(center, radius_x, radius_y, k).in_range(),
        Region::around(center, radius_x, radius_y).contains(
            spec_ideal_sample(center, radius_x, radius_y, k),
        ),
{
    lemma_trig_range(k);
    lemma_scaled_range(radius_x, spec_cos_turn(k));
    lemma_scaled_range(radius_y, spec_sin_turn(k));
}

/// The reach of the samples lies between 0 and its cap.
pub proof fn lemma_sample_reach(overlay: bool, options: RoughOptions)
    requires
        options.wf(),
    ensures
        0 <= spec_sample_reach(overlay, options) <= ELLIPSE_JITTER_CAP,
{
    let base = if overlay {
        options.max_randomness_offset + options.max_randomness_offset / 2
    } else {
        options.max_randomness_offset as int
    };
    lemma_amplitude_range(
        base,
        options.roughness as int,
        GAIN_ONE as int,
        ELLIPSE_JITTER_CAP as int,
    );
}

/// The middle of two points of a box in range lies in the box, and so does
/// the point two thirds of the way from one to the other.
pub proof fn lemma_between_points(a: Point, b: Point, region: Region)
    requires
        region.contains(a),
        region.contains(b),
        a.in_range(),
        b.in_range(),
    ensures
        region.contains(spec_midpoint(a, b)),
        spec_midpoint(a, b).in_range(),
        region.contains(spec_two_thirds(a, b)),
        spec_two_thirds(a, b).in_range(),
{
    lemma_lerp_between(a.x as int, b.x as int, 1, 2);
    lemma_lerp_between(a.y as int, b.y as int, 1, 2);
    lemma_lerp_between(a.x as int, b.x as int, 2, 3);
    lemma_lerp_between(a.y as int, b.y as int, 2, 3);
}

/// The curve round a corner lies in every box that holds the samples.
pub proof fn lemma_corner_within(samples: Seq<Point>, i: int, region: Region)
    requires
        0 <= i < samples.len(),
        points_within(samples, region),
        forall|j: int| 0 <= j < samples.len() ==> (#[trigger] samples[j]).in_range(),
    ensures
        spec_corner(samples, i).within(region),
        spec_corner(samples, i).is_segment(),
{
    let n = samples.len() as int;
    let prev = samples[spec_before(i, n)];
    let here = samples[i];
    let next = samples[spec_after(i, n)];
    assert(region.contains(prev) && region.contains(here) && region.contains(next));
    assert(prev.in_range() && here.in_range() && next.in_range());
    lemma_between_points(prev, here, region);
    lemma_between_points(here, next, region);
    lemma_between_points(spec_midpoint(prev, here), here, region);
    lemma_between_points(spec_midpoint(here, next), here, region);
}

/// The displaced samples of an ellipse are as many as were asked for, lie
/// in the box around the ellipse, loosened by the reach, and are in range.
pub proof fn lemma_samples_within(
    center: Point,
    radius_x: int,
    radius_y: int,
    first: int,
    reach: int,
    rng: RoughRng,
    upto: int,
)
    requires
        ellipse_in_range(center, radius_x, radius_y),
        0 <= first < TURN,
        0 <= reach,
        0 <= upto <= spec_sample_count(radius_x, radius_y),
    ensures
        spec_samples(center, radius_x, radius_y, first, reach, rng, upto).0.len() == upto,
        points_within(
            spec_samples(center, radius_x, radius_y, first, reach, rng, upto).0,
            Region::around(center, radius_x, radius_y).loosened(reach),
        ),
        forall|j: int|
            0 <= j < upto ==> (#[trigger] spec_samples(
                center,
                radius_x,
                radius_y,
                first,
                reach,
                rng,
                upto,
            ).0[j]).in_range(),
    decreases upto,
{
    if upto > 0 {
        lemma_samples_within(center, radius_x, radius_y, first, reach, rng, upto - 1);
        let (before, r) = spec_samples(center, radius_x, radius_y, first, reach, rng, upto - 1);
        let n = spec_sample_count(radius_x, radius_y);
        lemma_sample_direction(first, upto - 1, n);
        let k = spec_sample_direction(first, upto - 1, n);
        let ideal = spec_ideal_sample(center, radius_x, radius_y, k);
        lemma_ideal_sample(center, radius_x, radius_y, k);
        lemma_nudged_near(ideal, reach, r);
        let (p, r2) = spec_nudged(ideal, reach, r);
        let out = before.push(p);
        let region = Region::around(center, radius_x, radius_y).loosened(reach);
        assert(region.contains(p));
        assert forall|j: int| 0 <= j < out.len() implies region.contains(#[trigger] out[j])
            && out[j].in_range() by {
            if j < before.len() {
                assert(out[j] == before[j]);
            }
        }
    }
}

/// The outline through samples in range lies in every box that holds the
/// samples.
pub proof fn lemma_outline_within(samples: Seq<Point>, upto: int, region: Region)
    requires
        samples.len() >= 1,
        0 <= upto <= samples.len(),
        points_within(samples, region),
        forall|j: int| 0 <= j < samples.len() ==> (#[trigger] samples[j]).in_range(),
    ensures
        path_within(spec_outline(samples, upto), region),
    decreases upto,
{
    if upto <= 0 {
        let a = samples[samples.len() - 1];
        let b = samples[0];
        assert(region.contains(a) && region.contains(b) && a.in_range() && b.in_range());
        lemma_between_points(a, b, region);
    } else {
        lemma_outline_within(samples, upto - 1, region);
        lemma_corner_within(samples, upto - 1, region);
        let before = spec_outline(samples, upto - 1);
        let out = before.push(spec_corner(samples, upto - 1));
        assert forall|i: int| 0 <= i < out.len() implies (#[trigger] out[i]).within(region) by {
            if i < before.len() {
                assert(out[i] == before[i]);
            }
        }
    }
}

/// The closed outline through samples in range lies in every box that holds
/// the samples.
pub proof fn lemma_closed_outline_within(samples: Seq<Point>, region: Region)
    requires
        samples.len() >= 1,
        points_within(samples, region),
        forall|j: int| 0 <= j < samples.len() ==> (#[trigger] samples[j]).in_range(),
    ensures
        path_within(spec_closed_outline(samples), region),
{
    lemma_outline_within(samples, samples.len() as int, region);
    let before = spec_outline(samples, samples.len() as int);
    let out = before.push(PathEl::ClosePath);
    assert forall|i: int| 0 <= i < out.len() implies (#[trigger] out[i]).within(region) by {
        if i < before.len() {
            assert(out[i] == before[i]);
        }
    }
}

/// Every point of a rough ellipse, of its outline and of its samples, lies
/// in the box around the ellipse, loosened by the ellipse's jitter cap; the
/// samples are in range, and there are no fewer than the fewest.
pub proof fn lemma_ellipse_within(
    center: Point,
    radius_x: int,
    radius_y: int,
    options: RoughOptions,
    rng: RoughRng,
)
    requires
        ellipse_in_range(center, radius_x, radius_y),
        options.wf(),
    ensures
        ({
            let result = spec_ellipse(center, radius_x, radius_y, options, rng).0;
            let region = Region::around(center, radius_x, radius_y).loosened(
                ELLIPSE_JITTER_CAP as int,
            );
            &&& path_within(result.bez_path, region)
            &&& points_within(result.estimated_points, region)
            &&& result.estimated_points.len() == spec_sample_count(radius_x, radius_y)
            &&& result.estimated_points.len() >= MIN_SAMPLES
            &&& forall|j: int|
                0 <= j < result.estimated_points.len() ==> (
                #[trigger] result.estimated_points[j]).in_range()
        }),
{
    let region = Region::around(center, radius_x, radius_y).loosened(ELLIPSE_JITTER_CAP as int);
    let n = spec_sample_count(radius_x, radius_y);
    lemma_pass_within(center, radius_x, radius_y, false, options, rng);
    let (first, r1) = spec_ellipse_pass(center, radius_x, radius_y, false, options, rng);
    lemma_closed_outline_within(first, region);
    if !options.disable_multistroke {
        lemma_pass_within(center, radius_x, radius_y, true, options, r1);
        let (second, r2) = spec_ellipse_pass(center, radius_x, radius_y, true, options, r1);
        lemma_closed_outline_within(second, region);
        lemma_path_within_concat(
            spec_closed_outline(first),
            spec_closed_outline(second),
            region,
        );
    }
}

/// The displaced samples of one pass round an ellipse lie in the box around
/// the ellipse, loosened by the ellipse's jitter cap, and are in range.
pub proof fn lemma_pass_within(
    center: Point,
    radius_x: int,
    radius_y: int,
    overlay: bool,
    options: RoughOptions,
    rng: RoughRng,
)
    requires
        ellipse_in_range(center, radius_x, radius_y),
        options.wf(),
    ensures
        ({
            let samples = spec_ellipse_pass(center, radius_x, radius_y, overlay, options, rng).0;
            &&& samples.len() == spec_sample_count(radius_x, radius_y)
            &&& points_within(
                samples,
                Region::around(center, radius_x, radius_y).loosened(ELLIPSE_JITTER_CAP as int),
            )
            &&& forall|j: int| 0 <= j < samples.len() ==> (#[trigger] samples[j]).in_range()
        }),
{
    let n = spec_sample_count(radius_x, radius_y);
    let reach = spec_sample_reach(overlay, options);
    lemma_sample_reach(overlay, options);
    lemma_below_range(rng, TURN as int);
    let (first, r1) = rng.spec_below(TURN as int);
    lemma_samples_within(center, radius_x, radius_y, first, reach, r1, n);
    let samples = spec_samples(center, radius_x, radius_y, first, reach, r1, n).0;
    let tight = Region::around(center, radius_x, radius_y).loosened(reach);
    let region = Region::around(center, radius_x, radius_y).loosened(ELLIPSE_JITTER_CAP as int);
    assert forall|j: int| 0 <= j < samples.len() implies region.contains(#[trigger] samples[j]) by {
        assert(tight.contains(samples[j]));
    }
}

/// Number of samples of an ellipse.
pub fn sample_count(radius_x: i64, radius_y: i64) -> (n: i64)
    ensures
        n == spec_sample_count(radius_x as int, radius_y as int),
        n == 16 || n == 32 || n == 64,
{
    let r: i64 = if radius_x >= radius_y {
        radius_x
    } else {
        radius_y
    };
    if r < MEDIUM_RADIUS {
        16
    } else if r < LARGE_RADIUS {
        32
    } else {
        64
    }
}

/// A radius scaled by a sine or cosine, rounded towards zero.
fn scaled(radius: i64, t: i64) -> (r: i64)
    requires
        0 <= radius <= 2 * COORD_MAX,
        -TRIG_ONE <= t <= TRIG_ONE,
    ensures
        r == spec_scaled(radius as int, t as int),
        -radius <= r <= radius,
{
    proof {
        lemma_scaled_range(radius as int, t as int);
    }
    let m: i64 = if t >= 0 {
        t
    } else {
        -t
    };
    assert(0 <= radius * m <= 2147483648 * 4096) by (nonlinear_arith)
        requires
            0 <= radius <= 2147483648,
            0 <= m <= 4096,
    ;
    let q: i64 = (radius * m) / TRIG_ONE;
    if t >= 0 {
        q
    } else {
        -q
    }
}

/// The point of the ellipse in direction `k`.
fn ideal_sample(center: Point, radius_x: i64, radius_y: i64, k: i64) -> (p: Point)
    requires
        ellipse_in_range(center, radius_x as int, radius_y as int),
        center.in_range(),
        0 <= k < TURN,
    ensures
        p == spec_ideal_sample(center, radius_x as int, radius_y as int, k as int),
        p.in_range(),
        Region::around(center, radius_x as int, radius_y as int).contains(p),
{
    proof {
        lemma_ideal_sample(center, radius_x as int, radius_y as int, k as int);
    }
    let dx: i64 = scaled(radius_x, cos_turn(k));
    let dy: i64 = scaled(radius_y, sin_turn(k));
    Point { x: center.x + dx, y: center.y + dy }
}

/// The point half way from `a` to `b`.
fn midpoint(a: Point, b: Point) -> (m: Point)
    requires
        a.in_range(),
        b.in_range(),
    ensures
        m == spec_midpoint(a, b),
        m.in_range(),
{
    Point { x: lerp(a.x, b.x, 1, 2), y: lerp(a.y, b.y, 1, 2) }
}

/// The point two thirds of the way from `a` to `b`.
fn two_thirds(a: Point, b: Point) -> (m: Point)
    requires
        a.in_range(),
        b.in_range(),
    ensures
        m == spec_two_thirds(a, b),
        m.in_range(),
{
    Point { x: lerp(a.x, b.x, 2, 3), y: lerp(a.y, b.y, 2, 3) }
}

/// Takes the displaced samples of one pass round an ellipse.
fn ellipse_pass(
    center: Point,
    radius_x: i64,
    radius_y: i64,
    overlay: bool,
    options: &RoughOptions,
    rng: &mut RoughRng,
) -> (samples: Vec<Point>)
    requires
        ellipse_in_range(center, radius_x as int, radius_y as int),
        options.wf(),
    ensures
        samples@ == spec_ellipse_pass(
            center,
            radius_x as int,
            radius_y as int,
            overlay,
            *options,
            *old(rng),
        ).0,
        *final(rng) == spec_ellipse_pass(
            center,
            radius_x as int,
            radius_y as int,
            overlay,
            *options,
            *old(rng),
        ).1,
        samples@.len() == spec_sample_count(radius_x as int, radius_y as int),
        points_within(
            samples@,
            Region::around(center, radius_x as int, radius_y as int).loosened(
                ELLIPSE_JITTER_CAP as int,
            ),
        ),
        forall|j: int| 0 <= j < samples@.len() ==> (#[trigger] samples@[j]).in_range(),
{
    proof {
        lemma_sample_reach(overlay, *options);
        lemma_below_range(*rng, TURN as int);
    }
    let n: i64 = sample_count(radius_x, radius_y);
    let stride: i64 = TURN / n;
    let base: i64 = if overlay {
        options.max_randomness_offset + options.max_randomness_offset / 2
    } else {
        options.max_randomness_offset
    };
    let reach: i64 = amplitude(base, options.roughness, GAIN_ONE, ELLIPSE_JITTER_CAP);
    let first: i64 = rng.below(64) as i64;
    let ghost start = *rng;
    let ghost region = Region::around(center, radius_x as int, radius_y as int);
    let mut samples: Vec<Point> = Vec::new();
    let mut i: i64 = 0;
    while i < n
        invariant
            0 <= i <= n,
            n == spec_sample_count(radius_x as int, radius_y as int),
            n == 16 || n == 32 || n == 64,
            stride == 64int / (n as int),
            0 <= first < TURN,
            0 <= reach <= ELLIPSE_JITTER_CAP,
            ellipse_in_range(center, radius_x as int, radius_y as int),
            region == Region::around(center, radius_x as int, radius_y as int),
            samples@ == spec_samples(
                center,
                radius_x as int,
                radius_y as int,
                first as int,
                reach as int,
                start,
                i as int,
            ).0,
            *rng == spec_samples(
                center,
                radius_x as int,
                radius_y as int,
                first as int,
                reach as int,
                start,
                i as int,
            ).1,
            samples@.len() == i,
            points_within(samples@, region.loosened(ELLIPSE_JITTER_CAP as int)),
            forall|j: int| 0 <= j < samples@.len() ==> (#[trigger] samples@[j]).in_range(),
        decreases n - i,
    {
        proof {
            lemma_sample_direction(first as int, i as int, n as int);
        }
        let k: i64 = (first + i * stride) % TURN;
        let ideal: Point = ideal_sample(center, radius_x, radius_y, k);
        let p: Point = nudged(ideal, reach, rng);
        samples.push(p);
        i = i + 1;
    }
    samples
}

/// Lays the closed outline through the samples.
fn closed_outline(samples: &Vec<Point>, Ghost(region): Ghost<Region>) -> (path: Vec<PathEl>)
    requires
        samples@.len() >= 1,
        points_within(samples@, region),
        forall|j: int| 0 <= j < samples@.len() ==> (#[trigger] samples@[j]).in_range(),
    ensures
        path@ == spec_closed_outline(samples@),
        path_within(path@, region),
        path@.len() == samples@.len() + 2,
        segment_count(path@) == samples@.len(),
{
    let n: usize = samples.len();
    let mut path: Vec<PathEl> = Vec::new();
    let mut from: Point = midpoint(samples[n - 1], samples[0]);
    proof {
        assert(region.contains(samples@[n - 1]) && region.contains(samples@[0]));
        lemma_between_points(samples@[n - 1], samples@[0], region);
    }
    path.push(PathEl::MoveTo(from));
    proof {
        reveal_with_fuel(segment_count, 2);
        assert(path@ =~= spec_outline(samples@, 0));
        assert(path@.drop_last() =~= Seq::<PathEl>::empty());
    }
    let mut i: usize = 0;
    while i < n
        invariant
            i <= n,
            n == samples@.len(),
            n >= 1,
            points_within(samples@, region),
            forall|j: int| 0 <= j < samples@.len() ==> (#[trigger] samples@[j]).in_range(),
            i < n ==> from == spec_midpoint(samples@[spec_before(i as int, n as int)], samples@[i as int]),
            from.in_range(),
            path@ == spec_outline(samples@, i as int),
            path_within(path@, region),
            path@.len() == i + 1,
            segment_count(path@) == i,
        decreases n - i,
    {
        let next: usize = if i + 1 == n {
            0
        } else {
            i + 1
        };
        let here: Point = samples[i];
        let to: Point = midpoint(here, samples[next]);
        let c1: Point = two_thirds(from, here);
        let c2: Point = two_thirds(to, here);
        proof {
            lemma_corner_within(samples@, i as int, region);
            assert(PathEl::CurveTo(c1, c2, to) == spec_corner(samples@, i as int));
            let before = path@;
            assert(before.push(PathEl::CurveTo(c1, c2, to)).drop_last() =~= before);
        }
        path.push(PathEl::CurveTo(c1, c2, to));
        from = to;
        i = i + 1;
    }
    proof {
        let before = path@;
        assert(before.push(PathEl::ClosePath).drop_last() =~= before);
    }
    path.push(PathEl::ClosePath);
    path
}

/// Draws a rough ellipse round `center`.
///
/// The number of samples follows the larger radius. Each pass picks the
/// direction of its first sample at random, displaces every sample, and lays
/// a closed smooth curve through them. Unless multistroke is disabled, a
/// second pass with displacements of its own follows. The samples of the
/// first pass are handed back for the fill: outline and fill come from
/// different draws and need not coincide.
pub fn ellipse(
    center: Point,
    radius_x: i64,
    radius_y: i64,
    options: &RoughOptions,
    rng: &mut RoughRng,
) -> (result: EllipseResult)
    requires
        ellipse_in_range(center, radius_x as int, radius_y as int),
        options.wf(),
    ensures
        result@ == spec_ellipse(center, radius_x as int, radius_y as int, *options, *old(rng)).0,
        *final(rng) == spec_ellipse(center, radius_x as int, radius_y as int, *options, *old(rng)).1,
        path_within(
            result.bez_path@,
            Region::around(center, radius_x as int, radius_y as int).loosened(
                ELLIPSE_JITTER_CAP as int,
            ),
        ),
        points_within(
            result.estimated_points@,
            Region::around(center, radius_x as int, radius_y as int).loosened(
                ELLIPSE_JITTER_CAP as int,
            ),
        ),
        forall|j: int|
            0 <= j < result.estimated_points@.len() ==> (
            #[trigger] result.estimated_points@[j]).in_range(),
        result.estimated_points@.len() == spec_sample_count(radius_x as int, radius_y as int),
        result.estimated_points@.len() >= MIN_SAMPLES,
        segment_count(result.bez_path@) == if options.disable_multistroke {
            spec_sample_count(radius_x as int, radius_y as int)
        } else {
            2 * spec_sample_count(radius_x as int, radius_y as int)
        },
{
    let ghost region = Region::around(center, radius_x as int, radius_y as int).loosened(
        ELLIPSE_JITTER_CAP as int,
    );
    let first: Vec<Point> = ellipse_pass(center, radius_x, radius_y, false, options, rng);
    let mut bez_path: Vec<PathEl> = closed_outline(&first, Ghost(region));
    if !options.disable_multistroke {
        let second: Vec<Point> = ellipse_pass(center, radius_x, radius_y, true, options, rng);
        let mut overlay: Vec<PathEl> = closed_outline(&second, Ghost(region));
        proof {
            lemma_path_within_concat(bez_path@, overlay@, region);
            lemma_segment_count_concat(bez_path@, overlay@);
        }
        bez_path.append(&mut overlay);
    }
    EllipseResult { bez_path, estimated_points: first }
}

} // verus!
