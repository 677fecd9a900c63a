//! Sines and cosines of the 64 directions into which a full turn is cut, as
//! fixed-point integers.

use vstd::prelude::*;

verus! {

/// The fixed-point value of a sine or cosine that stands for 1.
pub const TRIG_ONE: i64 = 4096;

/// Number of directions in a full turn.
pub const TURN: i64 = 64;

/// Sine of direction `k` of the first quarter turn, `k` from 0 to 16.
pub open spec fn spec_sin_quarter(k: int) -> int {
    if k == 0 {
        0
    } else if k == 1 {
        401
    } else if k == 2 {
        799
    } else if k == 3 {
        1189
    } else if k == 4 {
        1567
    } else if k == 5 {
        1931
    } else if k == 6 {
        2276
    } else if k == 7 {
        2598
    } else if k == 8 {
        2896
    } else if k == 9 {
        3166
    } else if k == 10 {
        3406
    } else if k == 11 {
        3612
    } else if k == 12 {
        3784
    } else if k == 13 {
        3920
    } else if k == 14 {
        4017
    } else if k == 15 {
        4076
    } else {
        4096
    }
}

/// Sine of direction `k`, for `k` from 0 up to, not including, 64.
pub open spec fn spec_sin_turn(k: int) -> int {
    if k <= 16 {
        spec_sin_quarter(k)
    } else if k <= 32 {
        spec_sin_quarter(32 - k)
    } else if k <= 48 {
        -spec_sin_quarter(k - 32)
    } else {
        -spec_sin_quarter(64 - k)
    }
}

/// Cosine of direction `k`, for `k` from 0 up to, not including, 64.
pub open spec fn spec_cos_turn(k: int) -> int {
    spec_sin_turn((k + 16) % 64)
}

/// The direction that an angle stands for: its remainder by a full turn.
pub open spec fn spec_direction(angle: int) -> int {
    angle % 64
}

/// Sine of direction `k` of the first quarter turn.
fn sin_quarter(k: i64) -> (s: i64)
    requires
        0 <= k <= 16,
    ensures
        s == spec_sin_quarter(k as int),
        0 <= s <= TRIG_ONE,
{
    if k == 0 {
        0
    } else if k == 1 {
        401
    } else if k == 2 {
        799
    } else if k == 3 {
        1189
    } else if k == 4 {
        1567
    } else if k == 5 {
        1931
    } else if k == 6 {
        2276
    } else if k == 7 {
        2598
    } else if k == 8 {
        2896
    } else if k == 9 {
        3166
    } else if k == 10 {
        3406
    } else if k == 11 {
        3612
    } else if k == 12 {
        3784
    } else if k == 13 {
        3920
    } else if k == 14 {
        4017
    } else if k == 15 {
        4076
    } else {
        4096
    }
}

/// Sine of direction `k`.
pub fn sin_turn(k: i64) -> (s: i64)
    requires
        0 <= k < 64,
    ensures
        s == spec_sin_turn(k as int),
        -TRIG_ONE <= s <= TRIG_ONE,
{
    if k <= 16 {
        sin_quarter(k)
    } else if k <= 32 {
        sin_quarter(32 - k)
    } else if k <= 48 {
        -sin_quarter(k - 32)
    } else {
        -sin_quarter(64 - k)
    }
}

/// Cosine of direction `k`.
pub fn cos_turn(k: i64) -> (c: i64)
    requires
        0 <= k < 64,
    ensures
        c == spec_cos_turn(k as int),
        -TRIG_ONE <= c <= TRIG_ONE,
{
    sin_turn((k + 16) % 64)
}

/// The direction that an angle stands for: its remainder by a full turn.
pub fn direction(angle: i64) -> (k: i64)
    ensures
        k == spec_direction(angle as int),
        0 <= k < 64,
{
    let r: i64 = angle % 64;
    if r < 0 {
        r + 64
    } else {
        r
    }
}

/// Sines and cosines stay between -1 and 1.
pub proof fn lemma_trig_range(k: int)
    requires
        0 <= k < 64,
    ensures
        -TRIG_ONE <= spec_sin_turn(k) <= TRIG_ONE,
        -TRIG_ONE <= spec_cos_turn(k) <= TRIG_ONE,
{
}

} // verus!
