//! The hachure fill: parallel rough lines cut to the inside of a polygon.
//!
//! Fill lines are level lines of the projection onto the normal of the fill
//! direction. For each level the crossings with the polygon's edges are
//! collected in order along the line and paired up into spans; each span is
//! drawn as one rough line.

use vstd::prelude::*;
use crate::arith::{lemma_lerp_between, lerp, spec_abs, spec_lerp, spec_max, spec_min, COORD_MAX};
use crate::geom::{Aabb, Point, Region};
use crate::line::{lemma_line_properties, line, spec_line, LINE_JITTER_CAP};
use crate::options::RoughOptions;
use crate::path::{lemma_path_within_concat, lemma_path_within_wider, lemma_segment_count_concat,
    path_within, segment_count, PathEl};
use crate::rng::RoughRng;
use crate::trig::{cos_turn, direction, sin_turn, spec_cos_turn, spec_direction, spec_sin_turn,
    TRIG_ONE};

verus! {

/// Most fill lines drawn into one polygon. Where the gap would give more,
/// the gap is widened.
pub const MAX_FILL_LINES: i64 = 1024;

/// Smallest distance between two fill lines, in units.
pub const MIN_FILL_GAP: i64 = 64;

/// Largest magnitude of a projection of a point in range.
pub const PROJECTION_MAX: i64 = 8796093022208;

/// A point where a fill line crosses an edge of the polygon.
#[derive(Clone, Copy, Debug, PartialEq, Eq, Structural)]
pub struct Crossing {
    /// Position of the point along the fill line.
    pub key: i64,
    /// The point on the edge.
    pub point: Point,
}

/// Projection of `p` onto the direction `(nx, ny)`.
pub open spec fn spec_project(p: Point, nx: int, ny: int) -> int {
    nx * p.x + ny * p.y
}

/// Smallest projection of the vertices; 0 for none.
pub open spec fn spec_lowest(vertices: Seq<Point>, nx: int, ny: int) -> int
    decreases vertices.len(),
{
    if vertices.len() == 0 {
        0
    } else if vertices.len() == 1 {
        spec_project(vertices[0], nx, ny)
    } else {
        spec_min(spec_lowest(vertices.drop_last(), nx, ny), spec_project(vertices.last(), nx, ny))
    }
}

/// Largest projection of the vertices; 0 for none.
pub open spec fn spec_highest(vertices: Seq<Point>, nx: int, ny: int) -> int
    decreases vertices.len(),
{
    if vertices.len() == 0 {
        0
    } else if vertices.len() == 1 {
        spec_project(vertices[0], nx, ny)
    } else {
        spec_max(spec_highest(vertices.drop_last(), nx, ny), spec_project(vertices.last(), nx, ny))
    }
}

/// The smallest box around the vertices; the origin for none.
pub open spec fn spec_hull(vertices: Seq<Point>) -> Region
    decreases vertices.len(),
{
    if vertices.len() == 0 {
        Region { min_x: 0, min_y: 0, max_x: 0, max_y: 0 }
    } else if vertices.len() == 1 {
        Region::spanning(vertices[0], vertices[0])
    } else {
        spec_hull(vertices.drop_last()).including(vertices.last())
    }
}

/// Whether every vertex is in the range the generators accept.
pub open spec fn all_in_range(vertices: Seq<Point>) -> bool {
    forall|i: int| 0 <= i < vertices.len() ==> (#[trigger] vertices[i]).in_range()
}

/// Distance between two fill lines, in units: the hachure gap, or four
/// stroke widths where none is set, and no less than the smallest gap.
pub open spec fn spec_gap_units(options: RoughOptions) -> int {
    let wanted = if options.hachure_gap > 0 {
        options.hachure_gap as int
    } else {
        4 * options.stroke_width
    };
    spec_max(wanted, MIN_FILL_GAP as int)
}

/// Distance between two fill levels for a polygon whose projections span
/// `span`: the gap in projection units, widened where it would give too many
/// lines.
pub open spec fn spec_level_gap(options: RoughOptions, span: int) -> int {
    spec_max(spec_gap_units(options) * TRIG_ONE, span / (MAX_FILL_LINES as int) + 1)
}

/// The level of fill line `j`: half a gap above the lowest projection, and
/// one gap more for each line before it.
pub open spec fn spec_level(lowest: int, gap: int, j: int) -> int {
    lowest + gap / 2 + j * gap
}

/// The crossing of the level line with the edge from `a` to `b`, if the
/// projections of `a` and `b` lie on both sides of the level. An end point
/// on the level belongs to the edge only where it is the lower one, so a
/// vertex that the line passes through is met once.
pub open spec fn spec_edge_crossing(a: Point, b: Point, level: int, nx: int, ny: int) -> Option<
    Crossing,
> {
    let sa = spec_project(a, nx, ny);
    let sb = spec_project(b, nx, ny);
    if sa <= level < sb {
        Some(spec_crossing_at(a, b, level - sa, sb - sa, nx, ny))
    } else if sb <= level < sa {
        Some(spec_crossing_at(a, b, sa - level, sa - sb, nx, ny))
    } else {
        None
    }
}

/// The point `num / den` of the way from `a` to `b`, with its position along
/// the fill line.
pub open spec fn spec_crossing_at(a: Point, b: Point, num: int, den: int, nx: int, ny: int) -> Crossing {
    let x = spec_lerp(a.x as int, b.x as int, num, den);
    let y = spec_lerp(a.y as int, b.y as int, num, den);
    Crossing { key: (ny * x - nx * y) as i64, point: Point { x: x as i64, y: y as i64 } }
}

/// Where a crossing with the given key goes into a list in ascending order
/// of keys: behind the last crossing whose key is not greater.
pub open spec fn spec_insert_index(sorted: Seq<Crossing>, key: int) -> int
    decreases sorted.len(),
{
    if sorted.len() == 0 {
        0
    } else if sorted.last().key <= key {
        sorted.len() as int
    } else {
        spec_insert_index(sorted.drop_last(), key)
    }
}

/// Whether the keys of the list never fall.
pub open spec fn keys_ascend(list: Seq<Crossing>) -> bool {
    forall|i: int, j: int| 0 <= i <= j < list.len() ==> list[i].key <= list[j].key
}

/// The second end of edge `i` of a polygon of `n` vertices.
pub open spec fn spec_next_vertex(i: int, n: int) -> int {
    if i + 1 == n {
        0
    } else {
        i + 1
    }
}

/// The crossings of the level line with the first `upto` edges of the
/// polygon, in ascending order along the line.
pub open spec fn spec_crossings(vertices: Seq<Point>, level: int, nx: int, ny: int, upto: int) -> Seq<
    Crossing,
>
    decreases upto,
{
    if upto <= 0 {
        Seq::empty()
    } else {
        let before = spec_crossings(vertices, level, nx, ny, upto - 1);
        let a = vertices[upto - 1];
        let b = vertices[spec_next_vertex(upto - 1, vertices.len() as int)];
        match spec_edge_crossing(a, b, level, nx, ny) {
            Some(c) => before.insert(spec_insert_index(before, c.key as int), c),
            None => before,
        }
    }
}

/// The rough lines over the first `pairs` spans of a fill line, and the
/// random source after them. Crossings are paired up in order; a pair whose
/// two points coincide gives no line.
pub open spec fn spec_spans(list: Seq<Crossing>, options: RoughOptions, rng: RoughRng, pairs: int) -> (
    Seq<PathEl>,
    RoughRng,
)
    decreases pairs,
{
    if pairs <= 0 {
        (Seq::empty(), rng)
    } else {
        let (before, r) = spec_spans(list, options, rng, pairs - 1);
        let a = list[2 * (pairs - 1)].point;
        let b = list[2 * pairs - 1].point;
        if a == b {
            (before, r)
        } else {
            let (seg, r2) = spec_line(a, b, true, false, options, r);
            (before + seg, r2)
        }
    }
}

/// The rough lines over the first `lines` fill lines, and the random source
/// after them.
pub open spec fn spec_fill_lines(
    vertices: Seq<Point>,
    options: RoughOptions,
    rng: RoughRng,
    nx: int,
    ny: int,
    lowest: int,
    gap: int,
    lines: int,
) -> (Seq<PathEl>, RoughRng)
    decreases lines,
{
    if lines <= 0 {
        (Seq::empty(), rng)
    } else {
        let (before, r) = spec_fill_lines(vertices, options, rng, nx, ny, lowest, gap, lines - 1);
        let list = spec_crossings(
            vertices,
            spec_level(lowest, gap, lines - 1),
            nx,
            ny,
            vertices.len() as int,
        );
        let (spans, r2) = spec_spans(list, options, r, (list.len() / 2) as int);
        (before + spans, r2)
    }
}

/// The hachure fill of the polygon with the given vertices, and the random
/// source after it. A polygon of fewer than three vertices has no fill.
pub open spec fn spec_fill_polygon(vertices: Seq<Point>, options: RoughOptions, rng: RoughRng) -> (
    Seq<PathEl>,
    RoughRng,
) {
    if vertices.len() < 3 {
        (Seq::empty(), rng)
    } else {
        let k = spec_direction(options.hachure_angle as int);
        let nx = -spec_sin_turn(k);
        let ny = spec_cos_turn(k);
        let lowest = spec_lowest(vertices, nx, ny);
        let span = spec_highest(vertices, nx, ny) - lowest;
        let gap = spec_level_gap(options, span);
        spec_fill_lines(vertices, options, rng, nx, ny, lowest, gap, span / gap)
    }
}

/// The hull of a polygon holds each of its vertices.
pub proof fn lemma_hull_contains(vertices: Seq<Point>, i: int)
    requires
        0 <= i < vertices.len(),
    ensures
        spec_hull(vertices).contains(vertices[i]),
    decreases vertices.len(),
{
    if vertices.len() > 1 {
        if i < vertices.len() - 1 {
            lemma_hull_contains(vertices.drop_last(), i);
        }
    }
}

/// The hull of vertices that all lie in a box lies in the box.
pub proof fn lemma_hull_within(vertices: Seq<Point>, region: Region)
    requires
        vertices.len() > 0,
        forall|i: int| 0 <= i < vertices.len() ==> region.contains(#[trigger] vertices[i]),
    ensures
        spec_hull(vertices).within(region),
    decreases vertices.len(),
{
    if vertices.len() == 1 {
        assert(region.contains(vertices[0]));
    } else {
        assert(region.contains(vertices.last()));
        assert forall|i: int| 0 <= i < vertices.drop_last().len() implies region.contains(
            #[trigger] vertices.drop_last()[i],
        ) by {
            assert(region.contains(vertices[i]));
        }
        lemma_hull_within(vertices.drop_last(), region);
    }
}

/// The hull of vertices in range is in range.
pub proof fn lemma_hull_in_range(vertices: Seq<Point>)
    requires
        all_in_range(vertices),
    ensures
        spec_hull(vertices).bounded_by(COORD_MAX as int),
    decreases vertices.len(),
{
    if vertices.len() == 1 {
        assert(vertices[0].in_range());
    } else if vertices.len() > 1 {
        assert(vertices.last().in_range());
        assert forall|i: int| 0 <= i < vertices.drop_last().len() implies (
        #[trigger] vertices.drop_last()[i]).in_range() by {
            assert(vertices[i].in_range());
        }
        lemma_hull_in_range(vertices.drop_last());
    }
}

/// The projection of a point in range onto a direction of length 1.
pub proof fn lemma_project_range(p: Point, nx: int, ny: int)
    requires
        p.in_range(),
        spec_abs(nx) <= TRIG_ONE,
        spec_abs(ny) <= TRIG_ONE,
    ensures
        spec_abs(spec_project(p, nx, ny)) <= PROJECTION_MAX,
{
    let x = p.x as int;
    let y = p.y as int;
    assert(spec_abs(nx * x) <= 4096 * 1073741824 && spec_abs(ny * y) <= 4096 * 1073741824)
        by (nonlinear_arith)
        requires
            spec_abs(nx) <= 4096,
            spec_abs(ny) <= 4096,
            spec_abs(x) <= 1073741824,
            spec_abs(y) <= 1073741824,
    ;
}

/// The lowest and highest projections of vertices in range.
pub proof fn lemma_projection_span(vertices: Seq<Point>, nx: int, ny: int)
    requires
        all_in_range(vertices),
        spec_abs(nx) <= TRIG_ONE,
        spec_abs(ny) <= TRIG_ONE,
    ensures
        spec_lowest(vertices, nx, ny) <= spec_highest(vertices, nx, ny),
        spec_abs(spec_lowest(vertices, nx, ny)) <= PROJECTION_MAX,
        spec_abs(spec_highest(vertices, nx, ny)) <= PROJECTION_MAX,
    decreases vertices.len(),
{
    if vertices.len() == 1 {
        lemma_project_range(vertices[0], nx, ny);
    } else if vertices.len() > 1 {
        assert(vertices.last().in_range());
        assert forall|i: int| 0 <= i < vertices.drop_last().len() implies (
        #[trigger] vertices.drop_last()[i]).in_range() by {
            assert(vertices[i].in_range());
        }
        lemma_projection_span(vertices.drop_last(), nx, ny);
        lemma_project_range(vertices.last(), nx, ny);
    }
}

/// The insert index splits a list in ascending order: no key before it is
/// greater than the new key, and every key from it on is.
pub proof fn lemma_insert_index_splits(sorted: Seq<Crossing>, key: int)
    requires
        keys_ascend(sorted),
    ensures
        0 <= spec_insert_index(sorted, key) <= sorted.len(),
        forall|i: int| 0 <= i < spec_insert_index(sorted, key) ==> (#[trigger] sorted[i]).key <= key,
        forall|i: int|
            spec_insert_index(sorted, key) <= i < sorted.len() ==> (#[trigger] sorted[i]).key > key,
    decreases sorted.len(),
{
    if sorted.len() > 0 {
        if sorted.last().key <= key {
            assert forall|i: int| 0 <= i < sorted.len() implies (#[trigger] sorted[i]).key
                <= key by {
                assert(sorted[i].key <= sorted[sorted.len() - 1].key);
            }
        } else {
            let front = sorted.drop_last();
            assert forall|i: int, j: int| 0 <= i <= j < front.len() implies front[i].key
                <= front[j].key by {
                assert(sorted[i].key <= sorted[j].key);
            }
            lemma_insert_index_splits(front, key);
            let idx = spec_insert_index(front, key);
            assert forall|i: int| 0 <= i < idx implies (#[trigger] sorted[i]).key <= key by {
                assert(front[i].key <= key);
            }
            assert forall|i: int| idx <= i < sorted.len() implies (#[trigger] sorted[i]).key
                > key by {
                if i < front.len() {
                    assert(front[i].key > key);
                }
            }
        }
    }
}

/// A crossing put in at its insert index leaves the keys in ascending order.
pub proof fn lemma_insert_keeps_order(sorted: Seq<Crossing>, c: Crossing)
    requires
        keys_ascend(sorted),
    ensures
        keys_ascend(sorted.insert(spec_insert_index(sorted, c.key as int), c)),
        sorted.insert(spec_insert_index(sorted, c.key as int), c).len() == sorted.len() + 1,
{
    lemma_insert_index_splits(sorted, c.key as int);
    let idx = spec_insert_index(sorted, c.key as int);
    let out = sorted.insert(idx, c);
    assert forall|i: int, j: int| 0 <= i <= j < out.len() implies out[i].key <= out[j].key by {
        if i < idx {
            assert(out[i] == sorted[i]);
        } else if i > idx {
            assert(out[i] == sorted[i - 1]);
        }
        if j < idx {
            assert(out[j] == sorted[j]);
        } else if j > idx {
            assert(out[j] == sorted[j - 1]);
        }
    }
}

/// The levels of the fill lines lie between the lowest and the highest
/// projection, and there are no more lines than the limit.
pub proof fn lemma_levels(options: RoughOptions, lowest: int, span: int, j: int)
    requires
        options.wf(),
        0 <= span,
        0 <= j < span / spec_level_gap(options, span),
    ensures
        spec_level_gap(options, span) > 0,
        span / spec_level_gap(options, span) <= MAX_FILL_LINES,
        lowest <= spec_level(lowest, spec_level_gap(options, span), j) <= lowest + span,
{
    let gap = spec_level_gap(options, span);
    let units = spec_gap_units(options);
    assert(units * 4096 >= 4096) by (nonlinear_arith)
        requires
            units >= 64,
    ;
    assert(span / 1024 + 1 > 0) by (nonlinear_arith)
        requires
            0 <= span,
    ;
    lemma_line_count(span, gap);
    let lines = span / gap;
    assert(j * gap + gap <= lines * gap) by (nonlinear_arith)
        requires
            0 <= j < lines,
            gap > 0,
    ;
    assert(0 <= gap / 2 <= gap);
    assert(0 <= j * gap) by (nonlinear_arith)
        requires
            0 <= j,
            gap > 0,
    ;
}

/// A gap of more than one part in [`MAX_FILL_LINES`] of the span gives no
/// more lines than that limit, and the lines fit into the span.
pub proof fn lemma_line_count(span: int, gap: int)
    requires
        0 <= span,
        gap >= span / (MAX_FILL_LINES as int) + 1,
        gap > 0,
    ensures
        0 <= span / gap <= MAX_FILL_LINES,
        (span / gap) * gap <= span,
{
    assert(0 <= span / gap && (span / gap) * gap <= span) by (nonlinear_arith)
        requires
            0 <= span,
            gap > 0,
    ;
    let lines = span / gap;
    if lines > 1024 {
        assert(lines * gap >= 1025 * gap) by (nonlinear_arith)
            requires
                lines >= 1025,
                gap > 0,
        ;
        assert(1024 * (span / 1024) + 1024 > span) by (nonlinear_arith)
            requires
                0 <= span,
        ;
    }
}

/// The crossing of a level line with an edge lies in the box around the edge.
pub proof fn lemma_edge_crossing_within(a: Point, b: Point, level: int, nx: int, ny: int)
    requires
        a.in_range(),
        b.in_range(),
    ensures
        spec_edge_crossing(a, b, level, nx, ny) is Some ==> Region::spanning(a, b).contains(
            spec_edge_crossing(a, b, level, nx, ny)->0.point,
        ),
{
    let sa = spec_project(a, nx, ny);
    let sb = spec_project(b, nx, ny);
    if sa <= level < sb {
        lemma_lerp_between(a.x as int, b.x as int, level - sa, sb - sa);
        lemma_lerp_between(a.y as int, b.y as int, level - sa, sb - sa);
    } else if sb <= level < sa {
        lemma_lerp_between(a.x as int, b.x as int, sa - level, sa - sb);
        lemma_lerp_between(a.y as int, b.y as int, sa - level, sa - sb);
    }
}

/// The insert index lies in the list or right behind it.
pub proof fn lemma_insert_index_range(list: Seq<Crossing>, key: int)
    ensures
        0 <= spec_insert_index(list, key) <= list.len(),
    decreases list.len(),
{
    if list.len() > 0 && list.last().key > key {
        lemma_insert_index_range(list.drop_last(), key);
    }
}

/// Every crossing of a level line with the edges of a polygon lies in the
/// hull of the polygon.
pub proof fn lemma_crossings_within(vertices: Seq<Point>, level: int, nx: int, ny: int, upto: int)
    requires
        all_in_range(vertices),
        0 <= upto <= vertices.len(),
    ensures
        forall|k: int|
            0 <= k < spec_crossings(vertices, level, nx, ny, upto).len() ==> spec_hull(
                vertices,
            ).contains((#[trigger] spec_crossings(vertices, level, nx, ny, upto)[k]).point),
    decreases upto,
{
    if upto > 0 {
        lemma_crossings_within(vertices, level, nx, ny, upto - 1);
        let before = spec_crossings(vertices, level, nx, ny, upto - 1);
        let i = upto - 1;
        let j = spec_next_vertex(upto - 1, vertices.len() as int);
        let a = vertices[i];
        let b = vertices[j];
        assert(a.in_range() && b.in_range());
        lemma_hull_contains(vertices, i);
        lemma_hull_contains(vertices, j);
        lemma_edge_crossing_within(a, b, level, nx, ny);
        match spec_edge_crossing(a, b, level, nx, ny) {
            Some(c) => {
                lemma_insert_index_range(before, c.key as int);
                let idx = spec_insert_index(before, c.key as int);
                let out = before.insert(idx, c);
                assert forall|k: int| 0 <= k < out.len() implies spec_hull(vertices).contains(
                    (#[trigger] out[k]).point,
                ) by {
                    if k < idx {
                        assert(out[k] == before[k]);
                    } else if k > idx {
                        assert(out[k] == before[k - 1]);
                    }
                }
            },
            None => {},
        }
    }
}

/// The rough lines over the spans of a fill line lie in every box in range
/// that holds the crossings, loosened by the line's jitter cap.
pub proof fn lemma_spans_within(
    list: Seq<Crossing>,
    options: RoughOptions,
    rng: RoughRng,
    pairs: int,
    region: Region,
)
    requires
        options.wf(),
        region.bounded_by(COORD_MAX as int),
        forall|k: int| 0 <= k < list.len() ==> region.contains((#[trigger] list[k]).point),
        0 <= pairs,
        2 * pairs <= list.len(),
    ensures
        path_within(
            spec_spans(list, options, rng, pairs).0,
            region.loosened(LINE_JITTER_CAP as int),
        ),
    decreases pairs,
{
    if pairs > 0 {
        lemma_spans_within(list, options, rng, pairs - 1, region);
        let (before, r) = spec_spans(list, options, rng, pairs - 1);
        let a = list[2 * (pairs - 1)].point;
        let b = list[2 * pairs - 1].point;
        assert(region.contains(a) && region.contains(b));
        if a != b {
            let (seg, r2) = spec_line(a, b, true, false, options, r);
            lemma_line_properties(a, b, true, false, options, r);
            lemma_path_within_wider(
                seg,
                Region::spanning(a, b).loosened(LINE_JITTER_CAP as int),
                region.loosened(LINE_JITTER_CAP as int),
            );
            lemma_path_within_concat(before, seg, region.loosened(LINE_JITTER_CAP as int));
        }
    }
}

/// The rough lines over the fill lines of a polygon lie in the hull of the
/// polygon, loosened by the line's jitter cap.
pub proof fn lemma_fill_lines_within(
    vertices: Seq<Point>,
    options: RoughOptions,
    rng: RoughRng,
    nx: int,
    ny: int,
    lowest: int,
    gap: int,
    lines: int,
)
    requires
        all_in_range(vertices),
        options.wf(),
    ensures
        path_within(
            spec_fill_lines(vertices, options, rng, nx, ny, lowest, gap, lines).0,
            spec_hull(vertices).loosened(LINE_JITTER_CAP as int),
        ),
    decreases lines,
{
    if lines > 0 {
        lemma_fill_lines_within(vertices, options, rng, nx, ny, lowest, gap, lines - 1);
        let (before, r) = spec_fill_lines(vertices, options, rng, nx, ny, lowest, gap, lines - 1);
        let level = spec_level(lowest, gap, lines - 1);
        let list = spec_crossings(vertices, level, nx, ny, vertices.len() as int);
        lemma_crossings_within(vertices, level, nx, ny, vertices.len() as int);
        lemma_hull_in_range(vertices);
        lemma_spans_within(list, options, r, (list.len() / 2) as int, spec_hull(vertices));
        lemma_path_within_concat(
            before,
            spec_spans(list, options, r, (list.len() / 2) as int).0,
            spec_hull(vertices).loosened(LINE_JITTER_CAP as int),
        );
    }
}

/// Every point of a hachure fill lies in the hull of its polygon, loosened
/// by the line's jitter cap.
pub proof fn lemma_fill_polygon_within(vertices: Seq<Point>, options: RoughOptions, rng: RoughRng)
    requires
        all_in_range(vertices),
        options.wf(),
    ensures
        path_within(
            spec_fill_polygon(vertices, options, rng).0,
            spec_hull(vertices).loosened(LINE_JITTER_CAP as int),
        ),
{
    if vertices.len() >= 3 {
        let k = spec_direction(options.hachure_angle as int);
        let nx = -spec_sin_turn(k);
        let ny = spec_cos_turn(k);
        let lowest = spec_lowest(vertices, nx, ny);
        let span = spec_highest(vertices, nx, ny) - lowest;
        let gap = spec_level_gap(options, span);
        lemma_fill_lines_within(vertices, options, rng, nx, ny, lowest, gap, span / gap);
    }
}

/// Projection of `p` onto the direction `(nx, ny)`.
fn project(p: Point, nx: i64, ny: i64) -> (s: i64)
    requires
        p.in_range(),
        spec_abs(nx as int) <= TRIG_ONE,
        spec_abs(ny as int) <= TRIG_ONE,
    ensures
        s == spec_project(p, nx as int, ny as int),
        spec_abs(s as int) <= PROJECTION_MAX,
{
    proof {
        lemma_project_range(p, nx as int, ny as int);
    }
    assert(spec_abs(nx * p.x) <= 4096 * 1073741824 && spec_abs(ny * p.y) <= 4096 * 1073741824)
        by (nonlinear_arith)
        requires
            spec_abs(nx as int) <= 4096,
            spec_abs(ny as int) <= 4096,
            spec_abs(p.x as int) <= 1073741824,
            spec_abs(p.y as int) <= 1073741824,
    ;
    nx * p.x + ny * p.y
}

/// The smallest box around the vertices.
pub fn hull(vertices: &Vec<Point>) -> (bounds: Aabb)
    ensures
        bounds@ == spec_hull(vertices@),
{
    if vertices.len() == 0 {
        return Aabb { mins: Point { x: 0, y: 0 }, maxs: Point { x: 0, y: 0 } };
    }
    let mut bounds: Aabb = Aabb::new_positive(vertices[0], vertices[0]);
    let mut i: usize = 1;
    assert(vertices@.subrange(0, 1).len() == 1);
    while i < vertices.len()
        invariant
            1 <= i <= vertices.len(),
            bounds@ == spec_hull(vertices@.subrange(0, i as int)),
        decreases vertices.len() - i,
    {
        bounds = bounds.including(vertices[i]);
        assert(vertices@.subrange(0, i + 1).drop_last() =~= vertices@.subrange(0, i as int));
        i = i + 1;
    }
    assert(vertices@.subrange(0, vertices@.len() as int) =~= vertices@);
    bounds
}

/// The lowest and the highest projection of the vertices.
fn projection_span(vertices: &Vec<Point>, nx: i64, ny: i64) -> (ends: (i64, i64))
    requires
        vertices@.len() >= 1,
        all_in_range(vertices@),
        spec_abs(nx as int) <= TRIG_ONE,
        spec_abs(ny as int) <= TRIG_ONE,
    ensures
        ends.0 == spec_lowest(vertices@, nx as int, ny as int),
        ends.1 == spec_highest(vertices@, nx as int, ny as int),
        -PROJECTION_MAX <= ends.0 <= ends.1 <= PROJECTION_MAX,
{
    proof {
        lemma_projection_span(vertices@, nx as int, ny as int);
    }
    let first: i64 = project(vertices[0], nx, ny);
    let mut lowest: i64 = first;
    let mut highest: i64 = first;
    let mut i: usize = 1;
    assert(vertices@.subrange(0, 1).len() == 1);
    while i < vertices.len()
        invariant
            1 <= i <= vertices.len(),
            all_in_range(vertices@),
            spec_abs(nx as int) <= TRIG_ONE,
            spec_abs(ny as int) <= TRIG_ONE,
            lowest == spec_lowest(vertices@.subrange(0, i as int), nx as int, ny as int),
            highest == spec_highest(vertices@.subrange(0, i as int), nx as int, ny as int),
        decreases vertices.len() - i,
    {
        let s: i64 = project(vertices[i], nx, ny);
        if s < lowest {
            lowest = s;
        }
        if s > highest {
            highest = s;
        }
        assert(vertices@.subrange(0, i + 1).drop_last() =~= vertices@.subrange(0, i as int));
        i = i + 1;
    }
    assert(vertices@.subrange(0, vertices@.len() as int) =~= vertices@);
    (lowest, highest)
}

/// Distance between two fill levels for a polygon whose projections span `span`.
fn level_gap(options: &RoughOptions, span: i64) -> (gap: i64)
    requires
        options.wf(),
        0 <= span <= 2 * PROJECTION_MAX,
    ensures
        gap == spec_level_gap(*options, span as int),
        0 < gap <= 4398046511104,
{
    let wanted: i64 = if options.hachure_gap > 0 {
        options.hachure_gap
    } else {
        4 * options.stroke_width
    };
    let units: i64 = if wanted > MIN_FILL_GAP {
        wanted
    } else {
        MIN_FILL_GAP
    };
    assert(4096 <= units * 4096 <= 1073741824 * 4096) by (nonlinear_arith)
        requires
            64 <= units <= 1073741824,
    ;
    let scaled: i64 = units * TRIG_ONE;
    let least: i64 = span / MAX_FILL_LINES + 1;
    if scaled > least {
        scaled
    } else {
        least
    }
}

/// The crossing of the level line with the edge from `a` to `b`.
fn edge_crossing(a: Point, b: Point, level: i64, nx: i64, ny: i64) -> (found: Option<Crossing>)
    requires
        a.in_range(),
        b.in_range(),
        spec_abs(nx as int) <= TRIG_ONE,
        spec_abs(ny as int) <= TRIG_ONE,
    ensures
        found == spec_edge_crossing(a, b, level as int, nx as int, ny as int),
        found is Some ==> Region::spanning(a, b).contains(found->0.point),
{
    let sa: i64 = project(a, nx, ny);
    let sb: i64 = project(b, nx, ny);
    if sa <= level && level < sb {
        Some(crossing_at(a, b, level - sa, sb - sa, nx, ny))
    } else if sb <= level && level < sa {
        Some(crossing_at(a, b, sa - level, sa - sb, nx, ny))
    } else {
        None
    }
}

/// The point `num / den` of the way from `a` to `b`, with its position along
/// the fill line.
fn crossing_at(a: Point, b: Point, num: i64, den: i64, nx: i64, ny: i64) -> (c: Crossing)
    requires
        a.in_range(),
        b.in_range(),
        0 <= num <= den,
        0 < den <= 2 * PROJECTION_MAX,
        spec_abs(nx as int) <= TRIG_ONE,
        spec_abs(ny as int) <= TRIG_ONE,
    ensures
        c == spec_crossing_at(a, b, num as int, den as int, nx as int, ny as int),
        Region::spanning(a, b).contains(c.point),
{
    let x: i64 = lerp(a.x, b.x, num, den);
    let y: i64 = lerp(a.y, b.y, num, den);
    let point: Point = Point { x, y };
    let key: i64 = project(point, ny, -nx);
    assert(ny * x + (-nx) * y == ny * x - nx * y) by (nonlinear_arith);
    Crossing { key, point }
}

/// Puts a crossing into a list in ascending order of keys, behind the last
/// crossing whose key is not greater.
fn insert_crossing(list: &mut Vec<Crossing>, c: Crossing)
    ensures
        final(list)@ == old(list)@.insert(spec_insert_index(old(list)@, c.key as int), c),
{
    let mut i: usize = list.len();
    assert(list@.subrange(0, i as int) =~= list@);
    while i > 0 && list[i - 1].key > c.key
        invariant
            i <= list.len(),
            list@ == old(list)@,
            spec_insert_index(list@, c.key as int) == spec_insert_index(
                list@.subrange(0, i as int),
                c.key as int,
            ),
        decreases i,
    {
        assert(list@.subrange(0, i as int).drop_last() =~= list@.subrange(0, i - 1));
        i = i - 1;
    }
    list.insert(i, c);
}

/// The crossings of the level line with the edges of the polygon, in
/// ascending order along the line.
fn crossings(vertices: &Vec<Point>, level: i64, nx: i64, ny: i64) -> (list: Vec<Crossing>)
    requires
        all_in_range(vertices@),
        spec_abs(nx as int) <= TRIG_ONE,
        spec_abs(ny as int) <= TRIG_ONE,
    ensures
        list@ == spec_crossings(
            vertices@,
            level as int,
            nx as int,
            ny as int,
            vertices@.len() as int,
        ),
        keys_ascend(list@),
        forall|k: int|
            0 <= k < list@.len() ==> spec_hull(vertices@).contains((#[trigger] list@[k]).point),
{
    let mut list: Vec<Crossing> = Vec::new();
    let n: usize = vertices.len();
    let mut i: usize = 0;
    while i < n
        invariant
            i <= n,
            n == vertices.len(),
            all_in_range(vertices@),
            spec_abs(nx as int) <= TRIG_ONE,
            spec_abs(ny as int) <= TRIG_ONE,
            list@ == spec_crossings(vertices@, level as int, nx as int, ny as int, i as int),
            keys_ascend(list@),
            forall|k: int|
                0 <= k < list@.len() ==> spec_hull(vertices@).contains((#[trigger] list@[k]).point),
        decreases n - i,
    {
        let next: usize = if i + 1 == n {
            0
        } else {
            i + 1
        };
        let a: Point = vertices[i];
        let b: Point = vertices[next];
        match edge_crossing(a, b, level, nx, ny) {
            Some(c) => {
                proof {
                    lemma_hull_contains(vertices@, i as int);
                    lemma_hull_contains(vertices@, next as int);
                    lemma_insert_keeps_order(list@, c);
                    lemma_insert_index_splits(list@, c.key as int);
                }
                let ghost before = list@;
                insert_crossing(&mut list, c);
                proof {
                    let idx = spec_insert_index(before, c.key as int);
                    assert forall|k: int| 0 <= k < list@.len() implies spec_hull(
                        vertices@,
                    ).contains((#[trigger] list@[k]).point) by {
                        if k < idx {
                            assert(list@[k] == before[k]);
                        } else if k > idx {
                            assert(list@[k] == before[k - 1]);
                        }
                    }
                }
            },
            None => {},
        }
        i = i + 1;
    }
    list
}

/// Draws one rough line over each span of a fill line.
fn spans(list: &Vec<Crossing>, options: &RoughOptions, rng: &mut RoughRng, Ghost(region): Ghost<
    Region,
>) -> (path: Vec<PathEl>)
    requires
        options.wf(),
        region.bounded_by(COORD_MAX as int),
        forall|k: int| 0 <= k < list@.len() ==> region.contains((#[trigger] list@[k]).point),
    ensures
        path@ == spec_spans(list@, *options, *old(rng), (list@.len() / 2) as int).0,
        *final(rng) == spec_spans(list@, *options, *old(rng), (list@.len() / 2) as int).1,
        path_within(path@, region.loosened(LINE_JITTER_CAP as int)),
        path@.len() == 2 * segment_count(path@),
{
    let mut path: Vec<PathEl> = Vec::new();
    let count: usize = list.len();
    let pairs: usize = count / 2;
    let mut m: usize = 0;
    while m < pairs
        invariant
            m <= pairs,
            count == list@.len(),
            pairs == count / 2,
            options.wf(),
            region.bounded_by(COORD_MAX as int),
            forall|k: int| 0 <= k < list@.len() ==> region.contains((#[trigger] list@[k]).point),
            path@ == spec_spans(list@, *options, *old(rng), m as int).0,
            *rng == spec_spans(list@, *options, *old(rng), m as int).1,
            path_within(path@, region.loosened(LINE_JITTER_CAP as int)),
            path@.len() == 2 * segment_count(path@),
        decreases pairs - m,
    {
        assert(2 * m + 1 < count);
        let a: Point = list[2 * m].point;
        let b: Point = list[2 * m + 1].point;
        assert(region.contains(list@[2 * m as int].point));
        assert(region.contains(list@[2 * m + 1].point));
        if !(a.x == b.x && a.y == b.y) {
            let ghost before = path@;
            let mut seg: Vec<PathEl> = line(a, b, true, false, options, rng);
            proof {
                lemma_path_within_wider(
                    seg@,
                    Region::spanning(a, b).loosened(LINE_JITTER_CAP as int),
                    region.loosened(LINE_JITTER_CAP as int),
                );
                lemma_path_within_concat(
                    before,
                    seg@,
                    region.loosened(LINE_JITTER_CAP as int),
                );
                lemma_segment_count_concat(before, seg@);
            }
            path.append(&mut seg);
        }
        m = m + 1;
    }
    path
}

/// Fills the polygon with the given vertices with rough parallel lines.
///
/// The lines run in the direction of the hachure angle, one hachure gap
/// apart. The polygon need not be convex: each fill line is cut at every
/// edge it crosses, and every other stretch of it is drawn. A polygon of
/// fewer than three vertices has no fill.
pub fn fill_polygon(vertices: Vec<Point>, options: &RoughOptions, rng: &mut RoughRng) -> (path: Vec<
    PathEl,
>)
    requires
        all_in_range(vertices@),
        options.wf(),
    ensures
        path@ == spec_fill_polygon(vertices@, *options, *old(rng)).0,
        *final(rng) == spec_fill_polygon(vertices@, *options, *old(rng)).1,
        path_within(path@, spec_hull(vertices@).loosened(LINE_JITTER_CAP as int)),
        path@.len() == 2 * segment_count(path@),
        vertices@.len() < 3 ==> path@.len() == 0 && *final(rng) == *old(rng),
{
    let mut path: Vec<PathEl> = Vec::new();
    assert(segment_count(path@) == 0);
    if vertices.len() < 3 {
        return path;
    }
    let k: i64 = direction(options.hachure_angle);
    let nx: i64 = -sin_turn(k);
    let ny: i64 = cos_turn(k);
    let (lowest, highest) = projection_span(&vertices, nx, ny);
    let span: i64 = highest - lowest;
    let gap: i64 = level_gap(options, span);
    let lines: i64 = span / gap;
    let ghost region = spec_hull(vertices@);
    proof {
        lemma_hull_in_range(vertices@);
        lemma_line_count(span as int, gap as int);
    }
    let mut j: i64 = 0;
    while j < lines
        invariant
            0 <= j <= lines,
            lines == span / gap,
            lines * gap <= span,
            gap > 0,
            0 <= span <= 2 * PROJECTION_MAX,
            -PROJECTION_MAX <= lowest <= PROJECTION_MAX,
            lowest + span <= PROJECTION_MAX,
            gap == spec_level_gap(*options, span as int),
            all_in_range(vertices@),
            options.wf(),
            spec_abs(nx as int) <= TRIG_ONE,
            spec_abs(ny as int) <= TRIG_ONE,
            region == spec_hull(vertices@),
            region.bounded_by(COORD_MAX as int),
            path@ == spec_fill_lines(
                vertices@,
                *options,
                *old(rng),
                nx as int,
                ny as int,
                lowest as int,
                gap as int,
                j as int,
            ).0,
            *rng == spec_fill_lines(
                vertices@,
                *options,
                *old(rng),
                nx as int,
                ny as int,
                lowest as int,
                gap as int,
                j as int,
            ).1,
            path_within(path@, region.loosened(LINE_JITTER_CAP as int)),
            path@.len() == 2 * segment_count(path@),
        decreases lines - j,
    {
        proof {
            lemma_levels(*options, lowest as int, span as int, j as int);
            assert(0 <= j * gap <= span) by (nonlinear_arith)
                requires
                    0 <= j < lines,
                    gap > 0,
                    lines * gap <= span,
            ;
        }
        let level: i64 = lowest + gap / 2 + j * gap;
        let list: Vec<Crossing> = crossings(&vertices, level, nx, ny);
        let ghost before = path@;
        let mut found: Vec<PathEl> = spans(&list, options, rng, Ghost(region));
        proof {
            lemma_path_within_concat(before, found@, region.loosened(LINE_JITTER_CAP as int));
            lemma_segment_count_concat(before, found@);
        }
        path.append(&mut found);
        j = j + 1;
    }
    path
}

} // verus!
