//! Integer helpers shared by the generators: limits, interpolation, square roots.

use vstd::prelude::*;

verus! {

/// Number of coordinate units in one pixel.
pub const UNITS_PER_PIXEL: i64 = 256;

/// Largest magnitude of a coordinate that the generators accept.
pub const COORD_MAX: i64 = 1073741824;

/// Absolute value on mathematical integers.
pub open spec fn spec_abs(v: int) -> int {
    if v < 0 {
        -v
    } else {
        v
    }
}

/// The smaller of two mathematical integers.
pub open spec fn spec_min(a: int, b: int) -> int {
    if a <= b {
        a
    } else {
        b
    }
}

/// The larger of two mathematical integers.
pub open spec fn spec_max(a: int, b: int) -> int {
    if a >= b {
        a
    } else {
        b
    }
}

/// `v` forced into `[lo, hi]`.
pub open spec fn spec_clamp(v: int, lo: int, hi: int) -> int {
    if v < lo {
        lo
    } else if v > hi {
        hi
    } else {
        v
    }
}

/// Whether `v` is a coordinate the generators accept.
pub open spec fn coord_ok(v: int) -> bool {
    -COORD_MAX <= v <= COORD_MAX
}

/// The point `num / den` of the way from `a` to `b`, rounded towards `a`.
#[verifier::opaque]
pub open spec fn spec_lerp(a: int, b: int, num: int, den: int) -> int {
    if b >= a {
        a + ((b - a) * num) / den
    } else {
        a - ((a - b) * num) / den
    }
}

/// Whether `r` is the integer square root of `n`, rounded down.
pub open spec fn is_floor_sqrt(n: int, r: int) -> bool {
    0 <= r && r * r <= n && n < (r + 1) * (r + 1)
}

/// The integer square root of `n`, rounded down.
pub open spec fn spec_isqrt(n: int) -> int {
    choose|r: int| is_floor_sqrt(n, r)
}

/// A number has at most one floor square root.
pub proof fn lemma_floor_sqrt_unique(n: int, r: int, s: int)
    requires
        is_floor_sqrt(n, r),
        is_floor_sqrt(n, s),
    ensures
        r == s,
{
    if r < s {
        assert((r + 1) * (r + 1) <= s * s) by (nonlinear_arith)
            requires
                0 <= r,
                r + 1 <= s,
        ;
    } else if s < r {
        assert((s + 1) * (s + 1) <= r * r) by (nonlinear_arith)
            requires
                0 <= s,
                s + 1 <= r,
        ;
    }
}

/// Every number from 0 on has a floor square root.
pub proof fn lemma_floor_sqrt_exists(n: int)
    requires
        0 <= n,
    ensures
        is_floor_sqrt(n, spec_isqrt(n)),
    decreases n,
{
    if n == 0 {
        assert(is_floor_sqrt(0, 0));
    } else {
        lemma_floor_sqrt_exists(n - 1);
        let r = spec_isqrt(n - 1);
        if n < (r + 1) * (r + 1) {
            assert(is_floor_sqrt(n, r));
        } else {
            assert((r + 2) * (r + 2) > (r + 1) * (r + 1)) by (nonlinear_arith)
                requires
                    0 <= r,
            ;
            assert(is_floor_sqrt(n, r + 1));
        }
    }
}

/// A fraction of a span stays inside the span.
pub proof fn lemma_lerp_between(a: int, b: int, num: int, den: int)
    requires
        0 <= num <= den,
        0 < den,
    ensures
        spec_min(a, b) <= spec_lerp(a, b, num, den) <= spec_max(a, b),
        num == 0 ==> spec_lerp(a, b, num, den) == a,
        num == den ==> spec_lerp(a, b, num, den) == b,
        a == b ==> spec_lerp(a, b, num, den) == a,
{
    reveal(spec_lerp);
    let d = spec_abs(b - a);
    assert(0 <= (d * num) / den <= d) by (nonlinear_arith)
        requires
            0 <= num <= den,
            0 < den,
            0 <= d,
    ;
    assert(num == 0 ==> (d * num) / den == 0) by (nonlinear_arith)
        requires
            0 < den,
    ;
    assert(num == den ==> (d * num) / den == d) by (nonlinear_arith)
        requires
            0 < den,
    ;
    assert(d == 0 ==> (d * num) / den == 0) by (nonlinear_arith)
        requires
            0 < den,
    ;
}

/// Absolute value of a coordinate-sized number.
pub fn abs_i64(v: i64) -> (r: i64)
    requires
        v > i64::MIN,
    ensures
        r == spec_abs(v as int),
        r >= 0,
{
    if v < 0 {
        -v
    } else {
        v
    }
}

/// Forces `v` into `[lo, hi]`.
pub fn clamp_i64(v: i64, lo: i64, hi: i64) -> (r: i64)
    requires
        lo <= hi,
    ensures
        r == spec_clamp(v as int, lo as int, hi as int),
        lo <= r <= hi,
{
    if v < lo {
        lo
    } else if v > hi {
        hi
    } else {
        v
    }
}

/// Largest divisor that [`lerp`] accepts.
pub const LERP_DEN_MAX: i64 = 1152921504606846976;

/// The point `num / den` of the way from `a` to `b`, rounded towards `a`.
pub fn lerp(a: i64, b: i64, num: i64, den: i64) -> (r: i64)
    requires
        coord_ok(a as int),
        coord_ok(b as int),
        0 <= num <= den,
        0 < den <= LERP_DEN_MAX,
    ensures
        r == spec_lerp(a as int, b as int, num as int, den as int),
        spec_min(a as int, b as int) <= r <= spec_max(a as int, b as int),
{
    proof {
        reveal(spec_lerp);
        lemma_lerp_between(a as int, b as int, num as int, den as int);
    }
    let d: i64 = if b >= a {
        b - a
    } else {
        a - b
    };
    assert(0 <= d * num <= 2147483648 * 1152921504606846976 && 0 <= (d * num) / (den as int)
        <= d) by (nonlinear_arith)
        requires
            0 <= d <= 2147483648,
            0 <= num <= den,
            0 < den <= 1152921504606846976,
    ;
    let wide: i128 = ((d as i128) * (num as i128)) / (den as i128);
    let part: i64 = wide as i64;
    if b >= a {
        a + part
    } else {
        a - part
    }
}

/// Integer square root, rounded down.
pub fn isqrt(n: u64) -> (r: u64)
    ensures
        is_floor_sqrt(n as int, r as int),
        r == spec_isqrt(n as int),
        r < 4294967296,
{
    let mut lo: u64 = 0;
    let mut hi: u64 = 4294967296;
    while hi - lo > 1
        invariant
            lo < hi <= 4294967296,
            lo * lo <= n,
            n < hi * hi,
        decreases hi - lo,
    {
        let mid: u64 = lo + (hi - lo) / 2;
        assert(mid * mid <= 4294967295 * 4294967295) by (nonlinear_arith)
            requires
                0 <= mid <= 4294967295,
        ;
        if mid * mid <= n {
            lo = mid;
        } else {
            hi = mid;
        }
    }
    proof {
        assert(hi == lo + 1);
        assert(is_floor_sqrt(n as int, lo as int));
        lemma_floor_sqrt_unique(n as int, lo as int, spec_isqrt(n as int));
    }
    lo
}

} // verus!
