//! Points, axis-aligned boxes and affine transforms over fixed-point integers.

use vstd::prelude::*;
use crate::arith::{coord_ok, spec_abs, spec_max, spec_min, COORD_MAX};

verus! {

/// The fixed-point value of a transform entry that stands for 1.
pub const TRANSFORM_ONE: i64 = 4096;

/// Largest magnitude of an entry of a transform's linear part.
pub const TRANSFORM_ENTRY_MAX: i64 = 1048576;

/// Largest amount by which a box is loosened in one call.
pub const LOOSEN_MAX: i64 = 1073741824;

/// Largest magnitude of an edge of a box that can still be loosened.
pub const BOX_MAX: i64 = 1125899906842624;

/// A position or a displacement in the plane.
#[derive(Clone, Copy, Debug, PartialEq, Eq, Structural)]
pub struct Point {
    /// Horizontal coordinate, in units.
    pub x: i64,
    /// Vertical coordinate, in units.
    pub y: i64,
}

impl Point {
    /// Whether both coordinates are ones the generators accept.
    pub open spec fn in_range(self) -> bool {
        coord_ok(self.x as int) && coord_ok(self.y as int)
    }

    /// Whether the point is within `reach` of `other` on both axes.
    pub open spec fn near(self, other: Point, reach: int) -> bool {
        spec_abs(self.x - other.x) <= reach && spec_abs(self.y - other.y) <= reach
    }

    /// The point with the given coordinates.
    pub fn new(x: i64, y: i64) -> (p: Point)
        ensures
            p.x == x,
            p.y == y,
    {
        Point { x, y }
    }
}

/// The mathematical box behind an [`Aabb`]: all points `(x, y)` with
/// `min_x <= x <= max_x` and `min_y <= y <= max_y`.
pub struct Region {
    /// Left edge.
    pub min_x: int,
    /// Top edge.
    pub min_y: int,
    /// Right edge.
    pub max_x: int,
    /// Bottom edge.
    pub max_y: int,
}

impl Region {
    /// Whether `(x, y)` lies in the box, edges included.
    pub open spec fn holds(self, x: int, y: int) -> bool {
        self.min_x <= x <= self.max_x && self.min_y <= y <= self.max_y
    }

    /// Whether `p` lies in the box, edges included.
    pub open spec fn contains(self, p: Point) -> bool {
        self.holds(p.x as int, p.y as int)
    }

    /// The box grown by `amount` on every side.
    pub open spec fn loosened(self, amount: int) -> Region {
        Region {
            min_x: self.min_x - amount,
            min_y: self.min_y - amount,
            max_x: self.max_x + amount,
            max_y: self.max_y + amount,
        }
    }

    /// The smallest box around two points.
    pub open spec fn spanning(a: Point, b: Point) -> Region {
        Region {
            min_x: spec_min(a.x as int, b.x as int),
            min_y: spec_min(a.y as int, b.y as int),
            max_x: spec_max(a.x as int, b.x as int),
            max_y: spec_max(a.y as int, b.y as int),
        }
    }

    /// The smallest box around this box and `p`.
    pub open spec fn including(self, p: Point) -> Region {
        Region {
            min_x: spec_min(self.min_x, p.x as int),
            min_y: spec_min(self.min_y, p.y as int),
            max_x: spec_max(self.max_x, p.x as int),
            max_y: spec_max(self.max_y, p.y as int),
        }
    }

    /// The box around `center` that reaches `half_x` and `half_y` to each side.
    pub open spec fn around(center: Point, half_x: int, half_y: int) -> Region {
        Region {
            min_x: center.x - half_x,
            min_y: center.y - half_y,
            max_x: center.x + half_x,
            max_y: center.y + half_y,
        }
    }

    /// Whether every point of this box lies in `outer`.
    pub open spec fn within(self, outer: Region) -> bool {
        outer.min_x <= self.min_x && outer.min_y <= self.min_y && self.max_x <= outer.max_x
            && self.max_y <= outer.max_y
    }

    /// Whether no edge is farther than `limit` from the origin.
    pub open spec fn bounded_by(self, limit: int) -> bool {
        -limit <= self.min_x && -limit <= self.min_y && self.max_x <= limit && self.max_y <= limit
    }
}

/// An axis-aligned bounding box.
#[derive(Clone, Copy, Debug, PartialEq, Eq, Structural)]
pub struct Aabb {
    /// Corner with the smallest coordinates.
    pub mins: Point,
    /// Corner with the largest coordinates.
    pub maxs: Point,
}

impl View for Aabb {
    type V = Region;

    open spec fn view(&self) -> Region {
        Region {
            min_x: self.mins.x as int,
            min_y: self.mins.y as int,
            max_x: self.maxs.x as int,
            max_y: self.maxs.y as int,
        }
    }
}

impl Aabb {
    /// The smallest box around two points, given in any order.
    pub fn new_positive(a: Point, b: Point) -> (r: Aabb)
        ensures
            r@ == Region::spanning(a, b),
    {
        Aabb {
            mins: Point {
                x: if a.x <= b.x { a.x } else { b.x },
                y: if a.y <= b.y { a.y } else { b.y },
            },
            maxs: Point {
                x: if a.x >= b.x { a.x } else { b.x },
                y: if a.y >= b.y { a.y } else { b.y },
            },
        }
    }

    /// The box around `center` that reaches `half.x` and `half.y` to each side.
    pub fn from_half_extents(center: Point, half: Point) -> (r: Aabb)
        requires
            center.in_range(),
            0 <= half.x <= 4 * COORD_MAX,
            0 <= half.y <= 4 * COORD_MAX,
        ensures
            r@ == Region::around(center, half.x as int, half.y as int),
    {
        Aabb {
            mins: Point { x: center.x - half.x, y: center.y - half.y },
            maxs: Point { x: center.x + half.x, y: center.y + half.y },
        }
    }

    /// The smallest box around this box and `p`.
    pub fn including(&self, p: Point) -> (r: Aabb)
        ensures
            r@ == self@.including(p),
    {
        Aabb {
            mins: Point {
                x: if self.mins.x <= p.x { self.mins.x } else { p.x },
                y: if self.mins.y <= p.y { self.mins.y } else { p.y },
            },
            maxs: Point {
                x: if self.maxs.x >= p.x { self.maxs.x } else { p.x },
                y: if self.maxs.y >= p.y { self.maxs.y } else { p.y },
            },
        }
    }

    /// The box grown by `amount` on every side.
    pub fn loosened(&self, amount: i64) -> (r: Aabb)
        requires
            0 <= amount <= LOOSEN_MAX,
            self@.bounded_by(BOX_MAX as int),
        ensures
            r@ == self@.loosened(amount as int),
    {
        Aabb {
            mins: Point { x: self.mins.x - amount, y: self.mins.y - amount },
            maxs: Point { x: self.maxs.x + amount, y: self.maxs.y + amount },
        }
    }

    /// Whether `p` lies in the box, edges included.
    pub fn contains(&self, p: Point) -> (r: bool)
        ensures
            r == self@.contains(p),
    {
        self.mins.x <= p.x && p.x <= self.maxs.x && self.mins.y <= p.y && p.y <= self.maxs.y
    }
}

/// `n / d` rounded towards zero.
pub open spec fn spec_div_to_zero(n: int, d: int) -> int {
    if n >= 0 {
        n / d
    } else {
        -((-n) / d)
    }
}

/// `n / d` rounded up, for `n` that is not negative.
pub open spec fn spec_div_up(n: int, d: int) -> int {
    (n + d - 1) / d
}

/// An affine map of the plane. The linear part is a matrix of fixed-point
/// entries, of which [`TRANSFORM_ONE`] stands for 1; the translation is in
/// units. A point `(x, y)` goes to `(a x + b y, c x + d y) / TRANSFORM_ONE`,
/// rounded towards zero, plus `(tx, ty)`.
#[derive(Clone, Copy, Debug, PartialEq, Eq, Structural)]
pub struct Transform {
    /// Entry that takes x to x.
    pub a: i64,
    /// Entry that takes y to x.
    pub b: i64,
    /// Entry that takes x to y.
    pub c: i64,
    /// Entry that takes y to y.
    pub d: i64,
    /// Horizontal translation.
    pub tx: i64,
    /// Vertical translation.
    pub ty: i64,
}

impl Transform {
    /// Whether the entries are in the range the library works with.
    pub open spec fn wf(self) -> bool {
        &&& spec_abs(self.a as int) <= TRANSFORM_ENTRY_MAX
        &&& spec_abs(self.b as int) <= TRANSFORM_ENTRY_MAX
        &&& spec_abs(self.c as int) <= TRANSFORM_ENTRY_MAX
        &&& spec_abs(self.d as int) <= TRANSFORM_ENTRY_MAX
        &&& coord_ok(self.tx as int)
        &&& coord_ok(self.ty as int)
    }

    /// Whether each row of the linear part is no longer than 1, so that the
    /// map stretches nothing along either axis. Rotations, mirrors and
    /// translations are such maps.
    pub open spec fn spec_is_contraction(self) -> bool {
        &&& self.a * self.a + self.b * self.b <= TRANSFORM_ONE * TRANSFORM_ONE
        &&& self.c * self.c + self.d * self.d <= TRANSFORM_ONE * TRANSFORM_ONE
    }

    /// Horizontal coordinate of the image of `(x, y)`.
    pub open spec fn spec_apply_x(self, x: int, y: int) -> int {
        self.tx + spec_div_to_zero(self.a * x + self.b * y, TRANSFORM_ONE as int)
    }

    /// Vertical coordinate of the image of `(x, y)`.
    pub open spec fn spec_apply_y(self, x: int, y: int) -> int {
        self.ty + spec_div_to_zero(self.c * x + self.d * y, TRANSFORM_ONE as int)
    }

    /// How far the image of the box `[-half_x, half_x] x [-half_y, half_y]`
    /// reaches horizontally from the image of the origin, rounded up.
    #[verifier::opaque]
    pub open spec fn spec_reach_x(self, half_x: int, half_y: int) -> int {
        spec_div_up(
            spec_abs(self.a as int) * half_x + spec_abs(self.b as int) * half_y,
            TRANSFORM_ONE as int,
        )
    }

    /// How far the image of the box `[-half_x, half_x] x [-half_y, half_y]`
    /// reaches vertically from the image of the origin, rounded up.
    #[verifier::opaque]
    pub open spec fn spec_reach_y(self, half_x: int, half_y: int) -> int {
        spec_div_up(
            spec_abs(self.c as int) * half_x + spec_abs(self.d as int) * half_y,
            TRANSFORM_ONE as int,
        )
    }

    /// The box around the image of `[-half_x, half_x] x [-half_y, half_y]`.
    pub open spec fn spec_image_box(self, half_x: int, half_y: int) -> Region {
        Region::around(
            Point { x: self.tx, y: self.ty },
            self.spec_reach_x(half_x, half_y),
            self.spec_reach_y(half_x, half_y),
        )
    }

    /// The map that leaves every point where it is.
    pub fn identity() -> (t: Transform)
        ensures
            t == (Transform { a: TRANSFORM_ONE, b: 0, c: 0, d: TRANSFORM_ONE, tx: 0, ty: 0 }),
            t.wf(),
    {
        Transform { a: TRANSFORM_ONE, b: 0, c: 0, d: TRANSFORM_ONE, tx: 0, ty: 0 }
    }

    /// The map that moves every point by `offset`.
    pub fn translation(offset: Point) -> (t: Transform)
        ensures
            t == (Transform {
                a: TRANSFORM_ONE,
                b: 0,
                c: 0,
                d: TRANSFORM_ONE,
                tx: offset.x,
                ty: offset.y,
            }),
            offset.in_range() ==> t.wf(),
    {
        Transform { a: TRANSFORM_ONE, b: 0, c: 0, d: TRANSFORM_ONE, tx: offset.x, ty: offset.y }
    }

    /// The image of `p`.
    pub fn apply(&self, p: Point) -> (r: Point)
        requires
            self.wf(),
            spec_abs(p.x as int) <= 4 * COORD_MAX,
            spec_abs(p.y as int) <= 4 * COORD_MAX,
        ensures
            r.x == self.spec_apply_x(p.x as int, p.y as int),
            r.y == self.spec_apply_y(p.x as int, p.y as int),
    {
        let nx: i64 = mul_bounded(self.a, p.x) + mul_bounded(self.b, p.y);
        let ny: i64 = mul_bounded(self.c, p.x) + mul_bounded(self.d, p.y);
        let qx: i64 = div_to_zero(nx, TRANSFORM_ONE);
        let qy: i64 = div_to_zero(ny, TRANSFORM_ONE);
        Point { x: self.tx + qx, y: self.ty + qy }
    }

    /// The box around the image of the box that reaches `half.x` and `half.y`
    /// from the origin to each side.
    pub fn image_box(&self, half: Point) -> (r: Aabb)
        requires
            self.wf(),
            0 <= half.x <= COORD_MAX,
            0 <= half.y <= COORD_MAX,
        ensures
            r@ == self.spec_image_box(half.x as int, half.y as int),
            r@.bounded_by(513 * COORD_MAX),
    {
        proof {
            reveal(Transform::spec_reach_x);
            reveal(Transform::spec_reach_y);
        }
        let ax: i64 = if self.a < 0 { -self.a } else { self.a };
        let bx: i64 = if self.b < 0 { -self.b } else { self.b };
        let cx: i64 = if self.c < 0 { -self.c } else { self.c };
        let dx: i64 = if self.d < 0 { -self.d } else { self.d };
        let sum_x: i64 = mul_bounded(ax, half.x) + mul_bounded(bx, half.y);
        let sum_y: i64 = mul_bounded(cx, half.x) + mul_bounded(dx, half.y);
        let reach_x: i64 = (sum_x + (TRANSFORM_ONE - 1)) / TRANSFORM_ONE;
        let reach_y: i64 = (sum_y + (TRANSFORM_ONE - 1)) / TRANSFORM_ONE;
        assert(0 <= reach_x <= 512 * COORD_MAX && 0 <= reach_y <= 512 * COORD_MAX) by {
            assert(0 <= sum_x <= 2 * (1048576 * 1073741824) && 0 <= sum_y <= 2 * (1048576
                * 1073741824)) by (nonlinear_arith)
                requires
                    0 <= ax <= 1048576,
                    0 <= bx <= 1048576,
                    0 <= cx <= 1048576,
                    0 <= dx <= 1048576,
                    0 <= half.x <= 1073741824,
                    0 <= half.y <= 1073741824,
                    sum_x == ax * half.x + bx * half.y,
                    sum_y == cx * half.x + dx * half.y,
            ;
        }
        Aabb {
            mins: Point { x: self.tx - reach_x, y: self.ty - reach_y },
            maxs: Point { x: self.tx + reach_x, y: self.ty + reach_y },
        }
    }
}

/// The product of a transform entry and a coordinate.
fn mul_bounded(m: i64, v: i64) -> (r: i64)
    requires
        spec_abs(m as int) <= TRANSFORM_ENTRY_MAX,
        spec_abs(v as int) <= 4 * COORD_MAX,
    ensures
        r == m * v,
        spec_abs(r as int) <= TRANSFORM_ENTRY_MAX * (4 * COORD_MAX),
{
    assert(spec_abs(m * v) <= 1048576 * 4294967296) by (nonlinear_arith)
        requires
            spec_abs(m as int) <= 1048576,
            spec_abs(v as int) <= 4294967296,
    ;
    m * v
}

/// `n / d` rounded towards zero.
fn div_to_zero(n: i64, d: i64) -> (r: i64)
    requires
        d > 0,
        n > i64::MIN,
    ensures
        r == spec_div_to_zero(n as int, d as int),
        spec_abs(r as int) <= spec_abs(n as int),
{
    if n >= 0 {
        let q: i64 = n / d;
        assert(0 <= (n as int) / (d as int) <= n) by (nonlinear_arith)
            requires
                n >= 0,
                d > 0,
        ;
        q
    } else {
        let m: i64 = -n;
        assert(0 <= (m as int) / (d as int) <= m) by (nonlinear_arith)
            requires
                m >= 0,
                d > 0,
        ;
        let q: i64 = m / d;
        -q
    }
}

} // verus!
