//! The five primitives that can be drawn in the rough style, and their
//! exact bounds.

use vstd::prelude::*;
use crate::arith::{
    abs_i64, is_floor_sqrt, isqrt, lemma_floor_sqrt_exists, lemma_lerp_between, lerp, spec_abs,
    spec_isqrt, spec_lerp, spec_max, COORD_MAX,
};
use crate::geom::{spec_div_to_zero, Aabb, Point, Region, Transform, TRANSFORM_ONE};
use crate::line::{length, spec_length};

verus! {

/// A straight segment.
#[derive(Clone, Copy, Debug, PartialEq, Eq, Structural)]
pub struct Line {
    /// Where the segment starts.
    pub start: Point,
    /// Where the segment ends.
    pub end: Point,
}

/// A rectangle: the box that reaches `half_extents` from the origin to each
/// side, carried to its place by `transform`.
#[derive(Clone, Copy, Debug, PartialEq, Eq, Structural)]
pub struct Rectangle {
    /// Takes the rectangle from its own frame to its place.
    pub transform: Transform,
    /// Half of the width and half of the height.
    pub half_extents: Point,
}

/// An ellipse: the ellipse round the origin with the given radii, carried to
/// its place by `transform`.
#[derive(Clone, Copy, Debug, PartialEq, Eq, Structural)]
pub struct Ellipse {
    /// Takes the ellipse from its own frame to its place.
    pub transform: Transform,
    /// Horizontal and vertical radius.
    pub radii: Point,
}

/// A quadratic curve.
#[derive(Clone, Copy, Debug, PartialEq, Eq, Structural)]
pub struct QuadraticBezier {
    /// Where the curve starts.
    pub start: Point,
    /// The control point.
    pub cp: Point,
    /// Where the curve ends.
    pub end: Point,
}

/// A cubic curve.
#[derive(Clone, Copy, Debug, PartialEq, Eq, Structural)]
pub struct CubicBezier {
    /// Where the curve starts.
    pub start: Point,
    /// First control point.
    pub cp1: Point,
    /// Second control point.
    pub cp2: Point,
    /// Where the curve ends.
    pub end: Point,
}

/// Any of the five primitives.
#[derive(Clone, Copy, Debug, PartialEq, Eq, Structural)]
pub enum Shape {
    /// A straight segment.
    Line(Line),
    /// A rectangle.
    Rectangle(Rectangle),
    /// An ellipse.
    Ellipse(Ellipse),
    /// A quadratic curve.
    QuadraticBezier(QuadraticBezier),
    /// A cubic curve.
    CubicBezier(CubicBezier),
}

impl Line {
    /// Whether both ends are in the coordinate range.
    pub open spec fn wf(self) -> bool {
        self.start.in_range() && self.end.in_range()
    }

    /// The smallest box around the segment.
    pub open spec fn spec_bounds(self) -> Region {
        Region::spanning(self.start, self.end)
    }

    /// The smallest box around the segment.
    pub fn bounds(&self) -> (b: Aabb)
        ensures
            b@ == self.spec_bounds(),
    {
        Aabb::new_positive(self.start, self.end)
    }
}

impl Rectangle {
    /// Whether the half extents are not negative and in the coordinate
    /// range, and the transform is one the library works with.
    pub open spec fn wf(self) -> bool {
        &&& self.transform.wf()
        &&& 0 <= self.half_extents.x <= COORD_MAX
        &&& 0 <= self.half_extents.y <= COORD_MAX
    }

    /// The box in the rectangle's own frame.
    pub open spec fn spec_local_bounds(self) -> Region {
        Region::around(
            Point { x: 0, y: 0 },
            self.half_extents.x as int,
            self.half_extents.y as int,
        )
    }

    /// The box around the rectangle in its place.
    pub open spec fn spec_bounds(self) -> Region {
        self.transform.spec_image_box(self.half_extents.x as int, self.half_extents.y as int)
    }

    /// The box around the rectangle in its place.
    pub fn bounds(&self) -> (b: Aabb)
        requires
            self.wf(),
        ensures
            b@ == self.spec_bounds(),
            b@.bounded_by(513 * COORD_MAX),
    {
        self.transform.image_box(self.half_extents)
    }
}

impl Ellipse {
    /// Whether the radii are not negative and in the coordinate range, and
    /// the transform is one the library works with.
    pub open spec fn wf(self) -> bool {
        &&& self.transform.wf()
        &&& 0 <= self.radii.x <= COORD_MAX
        &&& 0 <= self.radii.y <= COORD_MAX
    }

    /// The box around the ellipse in its own frame.
    pub open spec fn spec_local_bounds(self) -> Region {
        Region::around(Point { x: 0, y: 0 }, self.radii.x as int, self.radii.y as int)
    }

    /// The box around the image of the box that holds the ellipse in its
    /// own frame.
    pub open spec fn spec_bounds(self) -> Region {
        self.transform.spec_image_box(self.radii.x as int, self.radii.y as int)
    }

    /// The box around the ellipse in its place.
    pub fn bounds(&self) -> (b: Aabb)
        requires
            self.wf(),
        ensures
            b@ == self.spec_bounds(),
            b@.bounded_by(513 * COORD_MAX),
    {
        self.transform.image_box(self.radii)
    }
}

impl QuadraticBezier {
    /// Whether the three points are in the coordinate range.
    pub open spec fn wf(self) -> bool {
        self.start.in_range() && self.cp.in_range() && self.end.in_range()
    }

    /// The smallest box around the three points; the curve lies in it.
    pub open spec fn spec_bounds(self) -> Region {
        Region::spanning(self.start, self.cp).including(self.end)
    }

    /// The smallest box around the three points.
    pub fn bounds(&self) -> (b: Aabb)
        ensures
            b@ == self.spec_bounds(),
    {
        Aabb::new_positive(self.start, self.cp).including(self.end)
    }
}

impl CubicBezier {
    /// Whether the four points are in the coordinate range.
    pub open spec fn wf(self) -> bool {
        self.start.in_range() && self.cp1.in_range() && self.cp2.in_range() && self.end.in_range()
    }

    /// The smallest box around the four points; the curve lies in it.
    pub open spec fn spec_bounds(self) -> Region {
        Region::spanning(self.start, self.cp1).including(self.cp2).including(self.end)
    }

    /// The smallest box around the four points.
    pub fn bounds(&self) -> (b: Aabb)
        ensures
            b@ == self.spec_bounds(),
    {
        Aabb::new_positive(self.start, self.cp1).including(self.cp2).including(self.end)
    }
}

impl Shape {
    /// Whether the primitive is one the generators accept.
    pub open spec fn wf(self) -> bool {
        match self {
            Shape::Line(s) => s.wf(),
            Shape::Rectangle(s) => s.wf(),
            Shape::Ellipse(s) => s.wf(),
            Shape::QuadraticBezier(s) => s.wf(),
            Shape::CubicBezier(s) => s.wf(),
        }
    }

    /// The box around the primitive.
    pub open spec fn spec_bounds(self) -> Region {
        match self {
            Shape::Line(s) => s.spec_bounds(),
            Shape::Rectangle(s) => s.spec_bounds(),
            Shape::Ellipse(s) => s.spec_bounds(),
            Shape::QuadraticBezier(s) => s.spec_bounds(),
            Shape::CubicBezier(s) => s.spec_bounds(),
        }
    }

    /// The transform under which the primitive's path is drawn: its own for
    /// a rectangle or an ellipse, none for the others.
    pub open spec fn spec_transform(self) -> Option<Transform> {
        match self {
            Shape::Rectangle(s) => Some(s.transform),
            Shape::Ellipse(s) => Some(s.transform),
            _ => None,
        }
    }

    /// The box around the primitive.
    pub fn bounds(&self) -> (b: Aabb)
        requires
            self.wf(),
        ensures
            b@ == self.spec_bounds(),
            b@.bounded_by(513 * COORD_MAX),
    {
        match self {
            Shape::Line(s) => s.bounds(),
            Shape::Rectangle(s) => s.bounds(),
            Shape::Ellipse(s) => s.bounds(),
            Shape::QuadraticBezier(s) => s.bounds(),
            Shape::CubicBezier(s) => s.bounds(),
        }
    }
}

/// Largest magnitude of a coordinate of a focus, or of a point on the
/// ellipse, from which an ellipse is made.
pub const FOCI_COORD_MAX: i64 = 268435456;

/// Whether a point is close enough to the origin to make an ellipse from.
pub open spec fn foci_ok(p: Point) -> bool {
    spec_abs(p.x as int) <= FOCI_COORD_MAX && spec_abs(p.y as int) <= FOCI_COORD_MAX
}

/// The square of the distance between two points.
pub open spec fn spec_distance_sq(a: Point, b: Point) -> int {
    (b.x - a.x) * (b.x - a.x) + (b.y - a.y) * (b.y - a.y)
}

/// The distance between two points, rounded up.
pub open spec fn spec_length_up(a: Point, b: Point) -> int {
    let r = spec_length(a, b);
    if r * r == spec_distance_sq(a, b) {
        r
    } else {
        r + 1
    }
}

/// One entry of the rotation that turns the x axis towards a vector: the
/// vector's extent on one axis over its length, in fixed point, rounded
/// towards zero.
pub open spec fn spec_direction_entry(extent: int, norm: int) -> int {
    spec_div_to_zero(extent * TRANSFORM_ONE, norm)
}

/// The ellipse with the given foci through the given point. Its first
/// radius is half the sum of the distances from the point to the foci, its
/// centre lies half way between the foci, and it is turned so that its first
/// axis points from the first focus to the second.
pub open spec fn spec_from_foci_and_point(first: Point, second: Point, point: Point) -> Ellipse {
    let sum = spec_length(point, first) + spec_length(point, second);
    let focal_sq = spec_distance_sq(first, second);
    let norm = spec_length_up(first, second);
    let cos = if focal_sq == 0 {
        TRANSFORM_ONE as int
    } else {
        spec_direction_entry(second.x - first.x, norm)
    };
    let sin = if focal_sq == 0 {
        0
    } else {
        spec_direction_entry(second.y - first.y, norm)
    };
    Ellipse {
        radii: Point {
            x: (sum / 2) as i64,
            y: (spec_isqrt(spec_max(0, sum * sum - focal_sq)) / 2) as i64,
        },
        transform: Transform {
            a: cos as i64,
            b: (-sin) as i64,
            c: sin as i64,
            d: cos as i64,
            tx: spec_lerp(first.x as int, second.x as int, 1, 2) as i64,
            ty: spec_lerp(first.y as int, second.y as int, 1, 2) as i64,
        },
    }
}

/// The distance between two points that an ellipse can be made from.
pub proof fn lemma_foci_length(a: Point, b: Point)
    requires
        foci_ok(a),
        foci_ok(b),
    ensures
        0 <= spec_distance_sq(a, b) <= 576460752303423488,
        0 <= spec_length(a, b) < 1073741824,
        is_floor_sqrt(spec_distance_sq(a, b), spec_length(a, b)),
        spec_length(a, b) <= spec_length_up(a, b) <= 1073741824,
        spec_distance_sq(a, b) <= spec_length_up(a, b) * spec_length_up(a, b),
        spec_distance_sq(a, b) > 0 ==> spec_length_up(a, b) > 0,
{
    let dx = b.x - a.x;
    let dy = b.y - a.y;
    let n = spec_distance_sq(a, b);
    assert(0 <= dx * dx <= 536870912 * 536870912 && 0 <= dy * dy <= 536870912 * 536870912)
        by (nonlinear_arith)
        requires
            -536870912 <= dx <= 536870912,
            -536870912 <= dy <= 536870912,
    ;
    lemma_floor_sqrt_exists(n);
    let r = spec_length(a, b);
    if r >= 1073741824 {
        assert(r * r >= 1073741824 * 1073741824) by (nonlinear_arith)
            requires
                r >= 1073741824,
        ;
    }
    if r * r != n {
        assert((r + 1) * (r + 1) > n);
    }
    if n > 0 && r == 0 {
        assert(r * r == 0) by (nonlinear_arith)
            requires
                r == 0,
        ;
    }
}

/// The entries of the rotation towards a vector make a row no longer than 1.
pub proof fn lemma_direction_row(vx: int, vy: int, norm: int)
    requires
        0 < norm,
        vx * vx + vy * vy <= norm * norm,
    ensures
        ({
            let c = spec_direction_entry(vx, norm);
            let s = spec_direction_entry(vy, norm);
            &&& c * c + s * s <= TRANSFORM_ONE * TRANSFORM_ONE
            &&& spec_abs(c) <= TRANSFORM_ONE
            &&& spec_abs(s) <= TRANSFORM_ONE
        }),
{
    let c = spec_direction_entry(vx, norm);
    let s = spec_direction_entry(vy, norm);
    let uc = spec_abs(c);
    let us = spec_abs(s);
    let ux = spec_abs(vx);
    let uy = spec_abs(vy);
    assert(spec_abs(vx * 4096) == ux * 4096 && spec_abs(vy * 4096) == uy * 4096);
    assert(uc == (ux * 4096) / norm);
    assert(us == (uy * 4096) / norm);
    assert(0 <= uc && uc * norm <= ux * 4096) by (nonlinear_arith)
        requires
            uc == (ux * 4096) / norm,
            0 < norm,
            0 <= ux,
    ;
    assert(0 <= us && us * norm <= uy * 4096) by (nonlinear_arith)
        requires
            us == (uy * 4096) / norm,
            0 < norm,
            0 <= uy,
    ;
    assert((uc * norm) * (uc * norm) <= (ux * 4096) * (ux * 4096)) by (nonlinear_arith)
        requires
            0 <= uc * norm <= ux * 4096,
    ;
    assert((us * norm) * (us * norm) <= (uy * 4096) * (uy * 4096)) by (nonlinear_arith)
        requires
            0 <= us * norm <= uy * 4096,
    ;
    assert((uc * norm) * (uc * norm) == (uc * uc) * (norm * norm) && (us * norm) * (us * norm) == (
    us * us) * (norm * norm) && (ux * 4096) * (ux * 4096) == (ux * ux) * 16777216 && (uy * 4096)
        * (uy * 4096) == (uy * uy) * 16777216) by (nonlinear_arith);
    assert(ux * ux == vx * vx && uy * uy == vy * vy && uc * uc == c * c && us * us == s * s)
        by (nonlinear_arith)
        requires
            ux == spec_abs(vx),
            uy == spec_abs(vy),
            uc == spec_abs(c),
            us == spec_abs(s),
    ;
    let q = c * c + s * s;
    let m = norm * norm;
    assert(m > 0) by (nonlinear_arith)
        requires
            m == norm * norm,
            norm > 0,
    ;
    assert(q * m <= 16777216 * m) by (nonlinear_arith)
        requires
            q == uc * uc + us * us,
            (uc * uc) * m <= (ux * ux) * 16777216,
            (us * us) * m <= (uy * uy) * 16777216,
            ux * ux + uy * uy <= m,
    ;
    assert(q <= 16777216) by (nonlinear_arith)
        requires
            q * m <= 16777216 * m,
            m > 0,
    ;
    if uc > 4096 {
        assert(uc * uc > 16777216) by (nonlinear_arith)
            requires
                uc > 4096,
        ;
        assert(us * us >= 0) by (nonlinear_arith);
    }
    if us > 4096 {
        assert(us * us > 16777216) by (nonlinear_arith)
            requires
                us > 4096,
        ;
        assert(uc * uc >= 0) by (nonlinear_arith);
    }
}

/// One entry of the rotation that turns the x axis towards a vector.
fn direction_entry(extent: i64, norm: i64) -> (r: i64)
    requires
        spec_abs(extent as int) <= 2 * FOCI_COORD_MAX,
        0 < norm,
    ensures
        r == spec_direction_entry(extent as int, norm as int),
{
    let m: i64 = abs_i64(extent);
    assert(0 <= m * 4096 <= 536870912 * 4096) by (nonlinear_arith)
        requires
            0 <= m <= 536870912,
    ;
    let q: i64 = (m * TRANSFORM_ONE) / norm;
    assert(0 <= ((m * 4096) as int) / (norm as int) <= m * 4096) by (nonlinear_arith)
        requires
            0 <= m * 4096,
            0 < norm,
    ;
    if extent >= 0 {
        q
    } else {
        -q
    }
}

impl Ellipse {
    /// Makes the ellipse with the given foci through the given point.
    pub fn from_foci_and_point(first: Point, second: Point, point: Point) -> (e: Ellipse)
        requires
            foci_ok(first),
            foci_ok(second),
            foci_ok(point),
        ensures
            e == spec_from_foci_and_point(first, second, point),
            e.wf(),
            e.transform.spec_is_contraction(),
    {
        proof {
            lemma_foci_length(point, first);
            lemma_foci_length(point, second);
            lemma_foci_length(first, second);
            lemma_lerp_between(first.x as int, second.x as int, 1, 2);
            lemma_lerp_between(first.y as int, second.y as int, 1, 2);
        }
        let d0: i64 = length(point, first);
        let d1: i64 = length(point, second);
        let sum: i64 = d0 + d1;
        let focal: i64 = length(first, second);
        let vx: i64 = second.x - first.x;
        let vy: i64 = second.y - first.y;
        let ux: i64 = abs_i64(vx);
        let uy: i64 = abs_i64(vy);
        assert(ux * ux + uy * uy == spec_distance_sq(first, second) && 0 <= ux * ux && 0 <= uy
            * uy) by (nonlinear_arith)
            requires
                ux == spec_abs(vx as int),
                uy == spec_abs(vy as int),
                vx == second.x - first.x,
                vy == second.y - first.y,
        ;
        let focal_sq: i64 = ux * ux + uy * uy;
        assert(0 <= focal * focal <= focal_sq) by (nonlinear_arith)
            requires
                0 <= focal,
                focal * focal <= focal_sq,
        ;
        let norm: i64 = if focal * focal == focal_sq {
            focal
        } else {
            focal + 1
        };
        assert(0 <= sum * sum <= 2147483648 * 2147483648) by (nonlinear_arith)
            requires
                0 <= sum <= 2147483648,
        ;
        let sum_sq: i64 = sum * sum;
        let under: i64 = if sum_sq > focal_sq {
            sum_sq - focal_sq
        } else {
            0
        };
        let root: i64 = isqrt(under as u64) as i64;
        proof {
            if root > sum {
                assert(root * root > sum * sum) by (nonlinear_arith)
                    requires
                        root > sum,
                        sum >= 0,
                ;
            }
        }
        let (cos, sin) = if focal_sq == 0 {
            (TRANSFORM_ONE, 0)
        } else {
            proof {
                lemma_direction_row(vx as int, vy as int, norm as int);
            }
            (direction_entry(vx, norm), direction_entry(vy, norm))
        };
        assert(cos * cos + sin * sin <= 4096 * 4096 && (-sin) * (-sin) == sin * sin) by {
            assert((-sin) * (-sin) == sin * sin) by (nonlinear_arith);
            if focal_sq == 0 {
                assert(cos * cos + sin * sin == 4096 * 4096) by (nonlinear_arith)
                    requires
                        cos == 4096,
                        sin == 0,
                ;
            }
        }
        Ellipse {
            radii: Point { x: sum / 2, y: root / 2 },
            transform: Transform {
                a: cos,
                b: -sin,
                c: sin,
                d: cos,
                tx: lerp(first.x, second.x, 1, 2),
                ty: lerp(first.y, second.y, 1, 2),
            },
        }
    }
}

} // verus!
