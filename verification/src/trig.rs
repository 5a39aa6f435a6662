//! Sine and cosine over headings in millidegrees, computed exactly in
//! integer arithmetic with Bhaskara's rational approximation, scaled to
//! milli-units (so `sin 90 deg == 1000`).

use vstd::prelude::*;

verus! {

/// A full turn in millidegrees.
pub const FULL_TURN: i64 = 360_000;

/// Half a turn in millidegrees.
pub const HALF_TURN: i64 = 180_000;

/// A quarter turn in millidegrees.
pub const QUARTER_TURN: i64 = 90_000;

/// Bhaskara's sine approximation on `[0, 180]` degrees, for `x` in
/// millidegrees, scaled to milli-units. Exact at 0, 30, 90, 150 and 180
/// degrees; within 2/1000 of the real sine everywhere on the interval.
pub open spec fn sin_half_milli(x: int) -> int {
    4000 * x * (180_000 - x) / (40_500_000_000 - x * (180_000 - x))
}

/// Sine of a heading in `[0, 360)` degrees (millidegrees), in milli-units.
pub open spec fn spec_sin(x: int) -> int {
    if x <= 180_000 {
        sin_half_milli(x)
    } else {
        -sin_half_milli(x - 180_000)
    }
}

/// Cosine of a heading in `[0, 360)` degrees (millidegrees), in
/// milli-units: the sine shifted by a quarter turn.
pub open spec fn spec_cos(x: int) -> int {
    if x + 90_000 < 360_000 {
        spec_sin(x + 90_000)
    } else {
        spec_sin(x + 90_000 - 360_000)
    }
}

/// Sine of a heading, exact integer evaluation of [`spec_sin`].
pub fn sin_mdeg(x: i64) -> (r: i64)
    requires
        0 <= x < FULL_TURN,
    ensures
        r == spec_sin(x as int),
        -1000 <= r <= 1000,
{
    if x <= 180_000 {
        sin_half_mdeg(x)
    } else {
        let r = sin_half_mdeg(x - 180_000);
        -r
    }
}

/// Cosine of a heading, exact integer evaluation of [`spec_cos`].
pub fn cos_mdeg(x: i64) -> (r: i64)
    requires
        0 <= x < FULL_TURN,
    ensures
        r == spec_cos(x as int),
        -1000 <= r <= 1000,
{
    let shifted = if x + QUARTER_TURN < FULL_TURN {
        x + QUARTER_TURN
    } else {
        x + QUARTER_TURN - FULL_TURN
    };
    sin_mdeg(shifted)
}

/// Brings any angle into `[0, 360)` degrees, keeping its value modulo a
/// full turn; the result is the Euclidean remainder.
pub fn normalize_mdeg(a: i64) -> (r: i64)
    ensures
        0 <= r < FULL_TURN,
        r == (a as int) % (FULL_TURN as int),
{
    let mut cur: i64 = a;
    while cur >= FULL_TURN
        invariant
            cur as int % (FULL_TURN as int) == a as int % (FULL_TURN as int),
        decreases cur,
    {
        proof {
            vstd::arithmetic::div_mod::lemma_mod_sub_multiples_vanish(
                cur as int,
                FULL_TURN as int,
            );
        }
        cur = cur - FULL_TURN;
    }
    while cur < 0
        invariant
            cur < FULL_TURN,
            cur as int % (FULL_TURN as int) == a as int % (FULL_TURN as int),
        decreases FULL_TURN - cur,
    {
        proof {
            vstd::arithmetic::div_mod::lemma_mod_add_multiples_vanish(
                cur as int,
                FULL_TURN as int,
            );
        }
        cur = cur + FULL_TURN;
    }
    proof {
        vstd::arithmetic::div_mod::lemma_small_mod(cur as nat, FULL_TURN as nat);
    }
    cur
}

/// Evaluates Bhaskara's formula on the first half turn.
fn sin_half_mdeg(x: i64) -> (r: i64)
    requires
        0 <= x <= 180_000,
    ensures
        r == sin_half_milli(x as int),
        0 <= r <= 1000,
{
    assert(0 <= x as int * (180_000 - x as int) <= 8_100_000_000) by (nonlinear_arith)
        requires
            0 <= x as int <= 180_000,
    ;
    let p: i64 = x * (180_000 - x);
    let num: i64 = 4000 * p;
    let den: i64 = 40_500_000_000 - p;
    proof {
        assert(num == 4000 * x as int * (180_000 - x as int)) by (nonlinear_arith)
            requires
                num == 4000 * (x as int * (180_000 - x as int)),
        ;
        assert(0 <= num <= 1000 * den) by (nonlinear_arith)
            requires
                num == 4000 * p,
                den == 40_500_000_000 - p,
                0 <= p <= 8_100_000_000,
        ;
        assert(0 <= num as int / den as int <= 1000) by (nonlinear_arith)
            requires
                0 <= num <= 1000 * den,
                0 < den,
        ;
    }
    num / den
}

} // verus!
