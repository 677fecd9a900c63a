//! The line engine: one segment becomes a cubic curve that bows away from the
//! segment and whose points are displaced at random.

use vstd::prelude::*;
use crate::arith::{
    abs_i64, is_floor_sqrt, isqrt, lemma_floor_sqrt_exists, lemma_lerp_between, lerp, spec_abs,
    spec_isqrt, spec_lerp, spec_min, COORD_MAX,
};
use crate::geom::{Point, Region};
use crate::options::RoughOptions;
use crate::path::{lemma_path_within_concat, lemma_segment_count_concat, path_within,
    segment_count, PathEl};
use crate::rng::{lemma_below_range, lemma_symmetric_range, RoughRng};

verus! {

/// Largest random displacement of a point of a line on one axis, in units.
pub const OFFSET_CAP: i64 = 1024;

/// Farthest that a line bows away from its segment on one axis, in units.
pub const BOW_CAP: i64 = 1024;

/// Farthest that a point of a rough line lies from the box around its
/// segment: the bow and the displacement together.
pub const LINE_JITTER_CAP: i64 = 2048;

/// The fixed-point value of a roughness gain that stands for 1.
pub const GAIN_ONE: i64 = 1024;

/// Length, in units, up to which a line is drawn at full roughness.
pub const GAIN_FULL_LENGTH: i64 = 51200;

/// Length, in units, from which a line is drawn at the lowest roughness.
pub const GAIN_LOW_LENGTH: i64 = 128000;

/// The lowest roughness gain.
pub const GAIN_LOW: i64 = 410;

/// Divisor that takes bowing, randomness offset and span to a displacement.
pub const BOW_DIVISOR: i64 = 13107200;

/// Draws that one rough line takes from the random source when it starts
/// with a move.
pub const DRAWS_WITH_MOVE: u64 = 11;

/// Draws that one rough line takes from the random source when it goes on
/// from the current point.
pub const DRAWS_WITHOUT_MOVE: u64 = 9;

/// Length of the segment from `start` to `end`, rounded down.
pub open spec fn spec_length(start: Point, end: Point) -> int {
    spec_isqrt(
        (end.x - start.x) * (end.x - start.x) + (end.y - start.y) * (end.y - start.y),
    )
}

/// The factor by which long lines are drawn less rough: 1 up to 200 pixels,
/// 0.4 from 500 pixels, and falling evenly in between.
#[verifier::opaque]
pub open spec fn spec_roughness_gain(len: int) -> int {
    if len < GAIN_FULL_LENGTH {
        GAIN_ONE as int
    } else if len > GAIN_LOW_LENGTH {
        GAIN_LOW as int
    } else {
        GAIN_ONE - ((len - GAIN_FULL_LENGTH) * (GAIN_ONE - GAIN_LOW)) / (GAIN_LOW_LENGTH
            - GAIN_FULL_LENGTH)
    }
}

/// A displacement `base` scaled by roughness and gain, and held to `cap`.
#[verifier::opaque]
pub open spec fn spec_amplitude(base: int, roughness: int, gain: int, cap: int) -> int {
    spec_min(cap, (base * roughness * gain) / 262144)
}

/// How far the points of a line of length `len` are displaced at random: the
/// randomness offset, but no more than a tenth of the length, halved for an
/// overlay pass, scaled and capped.
pub open spec fn spec_offset_reach(len: int, overlay: bool, options: RoughOptions) -> int {
    let offset = if 10 * options.max_randomness_offset > len {
        len / 10
    } else {
        options.max_randomness_offset as int
    };
    let base = if overlay {
        offset / 2
    } else {
        offset
    };
    spec_amplitude(base, options.roughness as int, spec_roughness_gain(len), OFFSET_CAP as int)
}

/// How far a line of length `len` bows on one axis, where `span` is its
/// extent on the other axis.
pub open spec fn spec_bow_reach(span: int, len: int, options: RoughOptions) -> int {
    spec_amplitude(
        (options.bowing * options.max_randomness_offset * spec_abs(span)) / (BOW_DIVISOR as int),
        options.roughness as int,
        spec_roughness_gain(len),
        BOW_CAP as int,
    )
}

/// `p` displaced on each axis by a draw from `[-reach, reach]`, and the
/// random source after the two draws.
pub open spec fn spec_jittered(p: Point, reach: int, rng: RoughRng) -> (Point, RoughRng) {
    let (dx, r1) = rng.spec_symmetric(reach);
    let (dy, r2) = r1.spec_symmetric(reach);
    (Point { x: (p.x + dx) as i64, y: (p.y + dy) as i64 }, r2)
}

/// The point `num / 1000` of the way from `start` to `end`, moved by `(mx, my)`.
pub open spec fn spec_anchor(start: Point, end: Point, num: int, mx: int, my: int) -> Point {
    Point {
        x: (spec_lerp(start.x as int, end.x as int, num, 1000) + mx) as i64,
        y: (spec_lerp(start.y as int, end.y as int, num, 1000) + my) as i64,
    }
}

/// The points of one rough line and the random source after it.
pub struct LineDraw {
    /// The displaced start; the start itself where the line begins without a move.
    pub head: Point,
    /// First control point.
    pub c1: Point,
    /// Second control point.
    pub c2: Point,
    /// The displaced end.
    pub tail: Point,
    /// The random source after the line's draws.
    pub rng: RoughRng,
}

/// The points of the rough line from `start` to `end`.
///
/// The draws come in a fixed order: where the curve leaves the segment, the
/// bow on each axis, the displaced start (only with a move), the two control
/// points, the displaced end.
pub open spec fn spec_line_draw(
    start: Point,
    end: Point,
    move_to_first: bool,
    overlay: bool,
    options: RoughOptions,
    rng: RoughRng,
) -> LineDraw {
    let len = spec_length(start, end);
    let reach = spec_offset_reach(len, overlay, options);
    let (diverge, r1) = rng.spec_below(201);
    let (mx, r2) = r1.spec_symmetric(spec_bow_reach(end.y - start.y, len, options));
    let (my, r3) = r2.spec_symmetric(spec_bow_reach(start.x - end.x, len, options));
    let (head, r4) = if move_to_first {
        spec_jittered(start, reach, r3)
    } else {
        (start, r3)
    };
    let (c1, r5) = spec_jittered(spec_anchor(start, end, 200 + diverge, mx, my), reach, r4);
    let (c2, r6) = spec_jittered(spec_anchor(start, end, 2 * (200 + diverge), mx, my), reach, r5);
    let (tail, r7) = spec_jittered(end, reach, r6);
    LineDraw { head, c1, c2, tail, rng: r7 }
}

/// The rough line from `start` to `end`, a curve after a move where one is
/// asked for, and the random source after it.
pub open spec fn spec_line(
    start: Point,
    end: Point,
    move_to_first: bool,
    overlay: bool,
    options: RoughOptions,
    rng: RoughRng,
) -> (Seq<PathEl>, RoughRng) {
    let draw = spec_line_draw(start, end, move_to_first, overlay, options, rng);
    if move_to_first {
        (seq![PathEl::MoveTo(draw.head), PathEl::CurveTo(draw.c1, draw.c2, draw.tail)], draw.rng)
    } else {
        (seq![PathEl::CurveTo(draw.c1, draw.c2, draw.tail)], draw.rng)
    }
}

/// The rough line drawn twice, a first pass and an overlay pass, and the
/// random source after both.
pub open spec fn spec_doubleline(start: Point, end: Point, options: RoughOptions, rng: RoughRng) -> (
    Seq<PathEl>,
    RoughRng,
) {
    let (first, r1) = spec_line(start, end, true, false, options, rng);
    let (second, r2) = spec_line(start, end, true, true, options, r1);
    (first + second, r2)
}

/// The roughness gain lies between its lowest value and 1.
pub proof fn lemma_gain_range(len: int)
    ensures
        GAIN_LOW <= spec_roughness_gain(len) <= GAIN_ONE,
{
    reveal(spec_roughness_gain);
    if GAIN_FULL_LENGTH <= len <= GAIN_LOW_LENGTH {
        let d = len - GAIN_FULL_LENGTH;
        assert(0 <= (d * 614) / 76800 <= 614) by (nonlinear_arith)
            requires
                0 <= d <= 76800,
        ;
    }
}

/// An amplitude lies between 0 and its cap, and is 0 for a base of 0.
pub proof fn lemma_amplitude_range(base: int, roughness: int, gain: int, cap: int)
    requires
        0 <= base,
        0 <= roughness,
        0 <= gain,
        0 <= cap,
    ensures
        0 <= spec_amplitude(base, roughness, gain, cap) <= cap,
        base == 0 ==> spec_amplitude(base, roughness, gain, cap) == 0,
{
    reveal(spec_amplitude);
    assert(0 <= base * roughness * gain) by (nonlinear_arith)
        requires
            0 <= base,
            0 <= roughness,
            0 <= gain,
    ;
    assert(base == 0 ==> base * roughness * gain == 0) by (nonlinear_arith);
}

/// The length of a segment between two points in range.
pub proof fn lemma_length_range(start: Point, end: Point)
    requires
        start.in_range(),
        end.in_range(),
    ensures
        is_floor_sqrt(
            (end.x - start.x) * (end.x - start.x) + (end.y - start.y) * (end.y - start.y),
            spec_length(start, end),
        ),
        0 <= spec_length(start, end) <= 4 * COORD_MAX,
        start == end ==> spec_length(start, end) == 0,
{
    let dx = end.x - start.x;
    let dy = end.y - start.y;
    let n = dx * dx + dy * dy;
    assert(0 <= n <= 2 * (2147483648 * 2147483648)) by (nonlinear_arith)
        requires
            -2147483648 <= dx <= 2147483648,
            -2147483648 <= dy <= 2147483648,
            n == dx * dx + dy * dy,
    ;
    lemma_floor_sqrt_exists(n);
    let r = spec_isqrt(n);
    if r > 4 * COORD_MAX {
        assert(r * r > 2 * (2147483648 * 2147483648)) by (nonlinear_arith)
            requires
                r > 4294967296,
        ;
    }
    if start == end {
        assert(n == 0) by (nonlinear_arith)
            requires
                dx == 0,
                dy == 0,
                n == dx * dx + dy * dy,
        ;
        if r > 0 {
            assert(r * r > 0) by (nonlinear_arith)
                requires
                    r > 0,
            ;
        }
    }
}

/// What holds of the amplitudes of a line between two points in range.
pub proof fn lemma_reaches(start: Point, end: Point, overlay: bool, options: RoughOptions)
    requires
        start.in_range(),
        end.in_range(),
        options.wf(),
    ensures
        0 <= spec_offset_reach(spec_length(start, end), overlay, options) <= OFFSET_CAP,
        0 <= spec_bow_reach(end.y - start.y, spec_length(start, end), options) <= BOW_CAP,
        0 <= spec_bow_reach(start.x - end.x, spec_length(start, end), options) <= BOW_CAP,
        start == end ==> spec_offset_reach(spec_length(start, end), overlay, options) == 0,
        start == end ==> spec_bow_reach(end.y - start.y, spec_length(start, end), options) == 0,
        start == end ==> spec_bow_reach(start.x - end.x, spec_length(start, end), options) == 0,
{
    lemma_length_range(start, end);
    let len = spec_length(start, end);
    lemma_gain_range(len);
    let gain = spec_roughness_gain(len);
    let offset = if 10 * options.max_randomness_offset > len {
        len / 10
    } else {
        options.max_randomness_offset as int
    };
    let base = if overlay {
        offset / 2
    } else {
        offset
    };
    lemma_amplitude_range(base, options.roughness as int, gain, OFFSET_CAP as int);
    let sy = spec_abs(end.y - start.y);
    let sx = spec_abs(start.x - end.x);
    let k = options.bowing * options.max_randomness_offset;
    assert(0 <= k) by (nonlinear_arith)
        requires
            0 <= options.bowing,
            0 <= options.max_randomness_offset,
            k == options.bowing * options.max_randomness_offset,
    ;
    assert(0 <= (k * sy) / 13107200 && (sy == 0 ==> (k * sy) / 13107200 == 0))
        by (nonlinear_arith)
        requires
            0 <= k,
            0 <= sy,
    ;
    assert(0 <= (k * sx) / 13107200 && (sx == 0 ==> (k * sx) / 13107200 == 0))
        by (nonlinear_arith)
        requires
            0 <= k,
            0 <= sx,
    ;
    lemma_amplitude_range((k * sy) / 13107200, options.roughness as int, gain, BOW_CAP as int);
    lemma_amplitude_range((k * sx) / 13107200, options.roughness as int, gain, BOW_CAP as int);
}

/// A displaced point stays within the reach of the point it came from.
pub proof fn lemma_jittered_near(p: Point, reach: int, rng: RoughRng)
    requires
        0 <= reach <= OFFSET_CAP,
        spec_abs(p.x as int) <= 2 * COORD_MAX,
        spec_abs(p.y as int) <= 2 * COORD_MAX,
    ensures
        spec_jittered(p, reach, rng).0.near(p, reach),
        spec_jittered(p, reach, rng).1 == rng.spec_step().spec_step(),
{
    lemma_symmetric_range(rng, reach);
    lemma_symmetric_range(rng.spec_step(), reach);
}

/// An anchor lies in the box around its segment, loosened by the bow.
pub proof fn lemma_anchor_near(start: Point, end: Point, num: int, mx: int, my: int)
    requires
        start.in_range(),
        end.in_range(),
        0 <= num <= 1000,
        spec_abs(mx) <= BOW_CAP,
        spec_abs(my) <= BOW_CAP,
    ensures
        Region::spanning(start, end).loosened(BOW_CAP as int).contains(
            spec_anchor(start, end, num, mx, my),
        ),
        spec_abs(spec_anchor(start, end, num, mx, my).x as int) <= 2 * COORD_MAX,
        spec_abs(spec_anchor(start, end, num, mx, my).y as int) <= 2 * COORD_MAX,
        (start == end && mx == 0 && my == 0) ==> spec_anchor(start, end, num, mx, my) == start,
{
    lemma_lerp_between(start.x as int, end.x as int, num, 1000);
    lemma_lerp_between(start.y as int, end.y as int, num, 1000);
}

/// A point within `reach` of a point of a box lies in the box loosened by
/// `reach` more.
pub proof fn lemma_near_in_loosened(p: Point, q: Point, region: Region, by: int, reach: int)
    requires
        region.loosened(by).contains(q),
        p.near(q, reach),
    ensures
        region.loosened(by + reach).contains(p),
{
}

/// The points of a rough line lie in the box around its segment, loosened by
/// the line's jitter cap, and on the segment's point where its length is 0.
pub proof fn lemma_line_draw_near(
    start: Point,
    end: Point,
    move_to_first: bool,
    overlay: bool,
    options: RoughOptions,
    rng: RoughRng,
)
    requires
        start.in_range(),
        end.in_range(),
        options.wf(),
    ensures
        ({
            let draw = spec_line_draw(start, end, move_to_first, overlay, options, rng);
            let region = Region::spanning(start, end).loosened(LINE_JITTER_CAP as int);
            &&& region.contains(draw.head)
            &&& region.contains(draw.c1)
            &&& region.contains(draw.c2)
            &&& region.contains(draw.tail)
            &&& start == end ==> draw.head == start && draw.c1 == start && draw.c2 == start
                && draw.tail == start
            &&& draw.rng == rng.spec_skip(
                if move_to_first {
                    DRAWS_WITH_MOVE as nat
                } else {
                    DRAWS_WITHOUT_MOVE as nat
                },
            )
        }),
{
    lemma_reaches(start, end, overlay, options);
    let len = spec_length(start, end);
    let reach = spec_offset_reach(len, overlay, options);
    let bow_x = spec_bow_reach(end.y - start.y, len, options);
    let bow_y = spec_bow_reach(start.x - end.x, len, options);
    let (diverge, r1) = rng.spec_below(201);
    let (mx, r2) = r1.spec_symmetric(bow_x);
    let (my, r3) = r2.spec_symmetric(bow_y);
    lemma_below_range(rng, 201);
    lemma_symmetric_range(r1, bow_x);
    lemma_symmetric_range(r2, bow_y);
    assert(0 <= diverge <= 200);
    let (head, r4) = if move_to_first {
        spec_jittered(start, reach, r3)
    } else {
        (start, r3)
    };
    let a1 = spec_anchor(start, end, 200 + diverge, mx, my);
    let a2 = spec_anchor(start, end, 2 * (200 + diverge), mx, my);
    let (c1, r5) = spec_jittered(a1, reach, r4);
    let (c2, r6) = spec_jittered(a2, reach, r5);
    let (tail, r7) = spec_jittered(end, reach, r6);
    lemma_anchor_near(start, end, 200 + diverge, mx, my);
    lemma_anchor_near(start, end, 2 * (200 + diverge), mx, my);
    lemma_jittered_near(start, reach, r3);
    lemma_jittered_near(a1, reach, r4);
    lemma_jittered_near(a2, reach, r5);
    lemma_jittered_near(end, reach, r6);
    let span = Region::spanning(start, end);
    lemma_near_in_loosened(c1, a1, span, BOW_CAP as int, OFFSET_CAP as int);
    lemma_near_in_loosened(c2, a2, span, BOW_CAP as int, OFFSET_CAP as int);
    assert(r1 == rng.spec_step());
    assert(r2 == r1.spec_step());
    assert(r3 == r2.spec_step());
    assert(r5 == r4.spec_step().spec_step());
    assert(r6 == r5.spec_step().spec_step());
    assert(r7 == r6.spec_step().spec_step());
    reveal_with_fuel(RoughRng::spec_skip, 12);
}

/// Every point of a rough line lies in the box around its segment, loosened
/// by the line's jitter cap; the line has one curve, after a move where one
/// was asked for; it takes a fixed number of draws; and a segment of length 0
/// gives a path that stays on its point.
pub proof fn lemma_line_properties(
    start: Point,
    end: Point,
    move_to_first: bool,
    overlay: bool,
    options: RoughOptions,
    rng: RoughRng,
)
    requires
        start.in_range(),
        end.in_range(),
        options.wf(),
    ensures
        path_within(
            spec_line(start, end, move_to_first, overlay, options, rng).0,
            Region::spanning(start, end).loosened(LINE_JITTER_CAP as int),
        ),
        spec_line(start, end, move_to_first, overlay, options, rng).0.len() == if move_to_first {
            2nat
        } else {
            1nat
        },
        segment_count(spec_line(start, end, move_to_first, overlay, options, rng).0) == 1,
        spec_line(start, end, move_to_first, overlay, options, rng).1 == rng.spec_skip(
            if move_to_first {
                DRAWS_WITH_MOVE as nat
            } else {
                DRAWS_WITHOUT_MOVE as nat
            },
        ),
        start == end ==> forall|i: int|
            0 <= i < spec_line(start, end, move_to_first, overlay, options, rng).0.len() ==> (
            #[trigger] spec_line(start, end, move_to_first, overlay, options, rng).0[i]).collapsed_to(
                start,
            ),
{
    lemma_line_draw_near(start, end, move_to_first, overlay, options, rng);
    let draw = spec_line_draw(start, end, move_to_first, overlay, options, rng);
    let path = spec_line(start, end, move_to_first, overlay, options, rng).0;
    reveal_with_fuel(segment_count, 3);
    if move_to_first {
        assert(path.drop_last() =~= seq![PathEl::MoveTo(draw.head)]);
        assert(path.drop_last().drop_last() =~= Seq::<PathEl>::empty());
    } else {
        assert(path.drop_last() =~= Seq::<PathEl>::empty());
    }
}

/// What holds of a rough line drawn twice: it lies in the loosened box around
/// its segment, has two curves, each after a move, and takes a fixed number
/// of draws.
pub proof fn lemma_doubleline_properties(
    start: Point,
    end: Point,
    options: RoughOptions,
    rng: RoughRng,
)
    requires
        start.in_range(),
        end.in_range(),
        options.wf(),
    ensures
        path_within(
            spec_doubleline(start, end, options, rng).0,
            Region::spanning(start, end).loosened(LINE_JITTER_CAP as int),
        ),
        spec_doubleline(start, end, options, rng).0.len() == 4,
        segment_count(spec_doubleline(start, end, options, rng).0) == 2,
        spec_doubleline(start, end, options, rng).1 == rng.spec_skip((2 * DRAWS_WITH_MOVE) as nat),
{
    let (first, r1) = spec_line(start, end, true, false, options, rng);
    let (second, r2) = spec_line(start, end, true, true, options, r1);
    lemma_line_properties(start, end, true, false, options, rng);
    lemma_line_properties(start, end, true, true, options, r1);
    lemma_path_within_concat(
        first,
        second,
        Region::spanning(start, end).loosened(LINE_JITTER_CAP as int),
    );
    lemma_segment_count_concat(first, second);
    lemma_skip_sum(rng, DRAWS_WITH_MOVE as nat, DRAWS_WITH_MOVE as nat);
}

/// Skipping `a` draws and then `b` draws skips `a + b` draws.
pub proof fn lemma_skip_sum(rng: RoughRng, a: nat, b: nat)
    ensures
        rng.spec_skip(a).spec_skip(b) == rng.spec_skip(a + b),
    decreases a,
{
    if a > 0 {
        lemma_skip_sum(rng.spec_step(), (a - 1) as nat, b);
    }
}

/// Length of the segment from `start` to `end`, rounded down.
pub fn length(start: Point, end: Point) -> (len: i64)
    requires
        start.in_range(),
        end.in_range(),
    ensures
        len == spec_length(start, end),
        0 <= len <= 4 * COORD_MAX,
{
    proof {
        lemma_length_range(start, end);
    }
    let dx: i64 = abs_i64(end.x - start.x);
    let dy: i64 = abs_i64(end.y - start.y);
    assert(dx * dx + dy * dy <= 2 * (2147483648 * 2147483648) && dx * dx >= 0 && dy * dy >= 0
        && dx * dx <= 2147483648 * 2147483648 && dx * dx == (end.x - start.x) * (end.x - start.x)
        && dy * dy == (end.y - start.y) * (end.y - start.y)) by (nonlinear_arith)
        requires
            0 <= dx <= 2147483648,
            0 <= dy <= 2147483648,
            dx == spec_abs(end.x - start.x),
            dy == spec_abs(end.y - start.y),
    ;
    let n: u64 = (dx as u64) * (dx as u64) + (dy as u64) * (dy as u64);
    let r: u64 = isqrt(n);
    r as i64
}

/// The factor by which long lines are drawn less rough.
fn roughness_gain(len: i64) -> (gain: i64)
    requires
        0 <= len <= 4 * COORD_MAX,
    ensures
        gain == spec_roughness_gain(len as int),
        GAIN_LOW <= gain <= GAIN_ONE,
{
    proof {
        reveal(spec_roughness_gain);
        lemma_gain_range(len as int);
    }
    if len < GAIN_FULL_LENGTH {
        GAIN_ONE
    } else if len > GAIN_LOW_LENGTH {
        GAIN_LOW
    } else {
        let d: i64 = len - GAIN_FULL_LENGTH;
        assert(0 <= d * 614 <= 76800 * 614) by (nonlinear_arith)
            requires
                0 <= d <= 76800,
        ;
        GAIN_ONE - (d * (GAIN_ONE - GAIN_LOW)) / (GAIN_LOW_LENGTH - GAIN_FULL_LENGTH)
    }
}

/// A displacement `base` scaled by roughness and gain, and held to `cap`.
pub fn amplitude(base: i64, roughness: i64, gain: i64, cap: i64) -> (r: i64)
    requires
        0 <= base <= 1099511627776,
        0 <= roughness <= 4096,
        0 <= gain <= 1024,
        0 <= cap,
    ensures
        r == spec_amplitude(base as int, roughness as int, gain as int, cap as int),
        0 <= r <= cap,
{
    proof {
        reveal(spec_amplitude);
        lemma_amplitude_range(base as int, roughness as int, gain as int, cap as int);
    }
    assert(0 <= base * roughness <= 1099511627776 * 4096) by (nonlinear_arith)
        requires
            0 <= base <= 1099511627776,
            0 <= roughness <= 4096,
    ;
    let scaled: i64 = base * roughness;
    assert(0 <= scaled * gain <= 1099511627776 * 4096 * 1024) by (nonlinear_arith)
        requires
            0 <= scaled <= 1099511627776 * 4096,
            0 <= gain <= 1024,
    ;
    let full: i64 = (scaled * gain) / 262144;
    if full < cap {
        full
    } else {
        cap
    }
}

/// How far the points of a line of length `len` are displaced at random.
fn offset_reach(len: i64, overlay: bool, options: &RoughOptions) -> (r: i64)
    requires
        0 <= len <= 4 * COORD_MAX,
        options.wf(),
    ensures
        r == spec_offset_reach(len as int, overlay, *options),
        0 <= r <= OFFSET_CAP,
{
    let offset: i64 = if 10 * options.max_randomness_offset > len {
        len / 10
    } else {
        options.max_randomness_offset
    };
    let base: i64 = if overlay {
        offset / 2
    } else {
        offset
    };
    amplitude(base, options.roughness, roughness_gain(len), OFFSET_CAP)
}

/// How far a line of length `len` bows on one axis.
fn bow_reach(span: i64, len: i64, options: &RoughOptions) -> (r: i64)
    requires
        -2 * COORD_MAX <= span <= 2 * COORD_MAX,
        0 <= len <= 4 * COORD_MAX,
        options.wf(),
    ensures
        r == spec_bow_reach(span as int, len as int, *options),
        0 <= r <= BOW_CAP,
{
    let s: i64 = abs_i64(span);
    assert(0 <= options.bowing * options.max_randomness_offset <= 4096 * 65536)
        by (nonlinear_arith)
        requires
            0 <= options.bowing <= 4096,
            0 <= options.max_randomness_offset <= 65536,
    ;
    let k: i64 = options.bowing * options.max_randomness_offset;
    assert(0 <= k * s <= 4096 * 65536 * 2147483648) by (nonlinear_arith)
        requires
            0 <= k <= 4096 * 65536,
            0 <= s <= 2147483648,
    ;
    let base: i64 = (k * s) / BOW_DIVISOR;
    amplitude(base, options.roughness, roughness_gain(len), BOW_CAP)
}

/// Displaces `p` on each axis by a draw from `[-reach, reach]`.
fn jittered(p: Point, reach: i64, rng: &mut RoughRng) -> (r: Point)
    requires
        0 <= reach <= OFFSET_CAP,
        spec_abs(p.x as int) <= 2 * COORD_MAX,
        spec_abs(p.y as int) <= 2 * COORD_MAX,
    ensures
        r == spec_jittered(p, reach as int, *old(rng)).0,
        *final(rng) == spec_jittered(p, reach as int, *old(rng)).1,
{
    let dx: i64 = rng.symmetric(reach);
    let dy: i64 = rng.symmetric(reach);
    Point { x: p.x + dx, y: p.y + dy }
}

/// The point `num / 1000` of the way from `start` to `end`, moved by `(mx, my)`.
fn anchor(start: Point, end: Point, num: i64, mx: i64, my: i64) -> (r: Point)
    requires
        start.in_range(),
        end.in_range(),
        0 <= num <= 1000,
        spec_abs(mx as int) <= BOW_CAP,
        spec_abs(my as int) <= BOW_CAP,
    ensures
        r == spec_anchor(start, end, num as int, mx as int, my as int),
        spec_abs(r.x as int) <= 2 * COORD_MAX,
        spec_abs(r.y as int) <= 2 * COORD_MAX,
{
    let x: i64 = lerp(start.x, end.x, num, 1000);
    let y: i64 = lerp(start.y, end.y, num, 1000);
    Point { x: x + mx, y: y + my }
}

/// Takes the draws of one rough line and places its points.
fn line_draw(
    start: Point,
    end: Point,
    move_to_first: bool,
    overlay: bool,
    options: &RoughOptions,
    rng: &mut RoughRng,
) -> (points: (Point, Point, Point, Point))
    requires
        start.in_range(),
        end.in_range(),
        options.wf(),
    ensures
        ({
            let draw = spec_line_draw(start, end, move_to_first, overlay, *options, *old(rng));
            &&& points.0 == draw.head
            &&& points.1 == draw.c1
            &&& points.2 == draw.c2
            &&& points.3 == draw.tail
            &&& *final(rng) == draw.rng
        }),
{
    let len: i64 = length(start, end);
    let reach: i64 = offset_reach(len, overlay, options);
    let bow_x: i64 = bow_reach(end.y - start.y, len, options);
    let bow_y: i64 = bow_reach(start.x - end.x, len, options);
    let diverge: i64 = rng.below(201) as i64;
    let ghost r1 = *rng;
    let mx: i64 = rng.symmetric(bow_x);
    let ghost r2 = *rng;
    let my: i64 = rng.symmetric(bow_y);
    let ghost r3 = *rng;
    assert(r1 == old(rng).spec_below(201).1);
    assert(r2 == r1.spec_symmetric(bow_x as int).1);
    assert(r3 == r2.spec_symmetric(bow_y as int).1);
    let head: Point = if move_to_first {
        jittered(start, reach, rng)
    } else {
        start
    };
    let ghost r4 = *rng;
    let a1: Point = anchor(start, end, 200 + diverge, mx, my);
    let c1: Point = jittered(a1, reach, rng);
    let ghost r5 = *rng;
    let a2: Point = anchor(start, end, 2 * (200 + diverge), mx, my);
    let c2: Point = jittered(a2, reach, rng);
    let ghost r6 = *rng;
    let tail: Point = jittered(end, reach, rng);
    (head, c1, c2, tail)
}

/// Draws one rough line from `start` to `end`.
///
/// With `move_to_first` the path begins with a move to the displaced start;
/// without, it goes on from the current point of the path it is appended to.
/// With `overlay` the points are displaced half as far, for a second pass
/// over a line already drawn.
pub fn line(
    start: Point,
    end: Point,
    move_to_first: bool,
    overlay: bool,
    options: &RoughOptions,
    rng: &mut RoughRng,
) -> (path: Vec<PathEl>)
    requires
        start.in_range(),
        end.in_range(),
        options.wf(),
    ensures
        path@ == spec_line(start, end, move_to_first, overlay, *options, *old(rng)).0,
        *final(rng) == spec_line(start, end, move_to_first, overlay, *options, *old(rng)).1,
        path_within(path@, Region::spanning(start, end).loosened(LINE_JITTER_CAP as int)),
        path@.len() == if move_to_first {
            2nat
        } else {
            1nat
        },
        segment_count(path@) == 1,
        *final(rng) == old(rng).spec_skip(
            if move_to_first {
                DRAWS_WITH_MOVE as nat
            } else {
                DRAWS_WITHOUT_MOVE as nat
            },
        ),
        start == end ==> forall|i: int|
            0 <= i < path@.len() ==> (#[trigger] path@[i]).collapsed_to(start),
{
    proof {
        lemma_line_properties(start, end, move_to_first, overlay, *options, *rng);
    }
    let (head, c1, c2, tail) = line_draw(start, end, move_to_first, overlay, options, rng);
    let mut path: Vec<PathEl> = Vec::new();
    if move_to_first {
        path.push(PathEl::MoveTo(head));
    }
    path.push(PathEl::CurveTo(c1, c2, tail));
    assert(path@ =~= spec_line(start, end, move_to_first, overlay, *options, *old(rng)).0);
    path
}

/// Draws a rough line twice: a first pass, then an overlay pass with draws of
/// its own, as a pen that goes over the same line again.
pub fn doubleline(start: Point, end: Point, options: &RoughOptions, rng: &mut RoughRng) -> (path:
    Vec<PathEl>)
    requires
        start.in_range(),
        end.in_range(),
        options.wf(),
    ensures
        path@ == spec_doubleline(start, end, *options, *old(rng)).0,
        *final(rng) == spec_doubleline(start, end, *options, *old(rng)).1,
        path_within(path@, Region::spanning(start, end).loosened(LINE_JITTER_CAP as int)),
        path@.len() == 4,
        segment_count(path@) == 2,
        *final(rng) == old(rng).spec_skip((2 * DRAWS_WITH_MOVE) as nat),
{
    proof {
        lemma_doubleline_properties(start, end, *options, *rng);
    }
    let mut path: Vec<PathEl> = line(start, end, true, false, options, rng);
    let mut second: Vec<PathEl> = line(start, end, true, true, options, rng);
    path.append(&mut second);
    path
}

} // verus!
