//! Segment/segment intersection with parametric position, and linear
//! interpolation, over fixed-point (milli-unit) coordinates.
//!
//! The intersection parameter `t` of a hit is reported scaled by 1000:
//! `t == 0` means the hit lies on the first segment's start point and
//! `t == 1000` means it lies on its end point.

use vstd::prelude::*;

verus! {

/// Fixed-point steps per unit: all coordinates, readings and factors
/// carry three fractional digits.
pub const MILLI: i64 = 1000;

/// Largest coordinate magnitude (in milli-units) the geometry kernel
/// accepts; keeps every intermediate product inside `i128`.
pub const SEG_BOUND: i64 = 2_000_000_000_000;

/// A point of the plane in milli-unit coordinates.
#[derive(Clone, Copy, PartialEq, Eq, Structural, Debug)]
pub struct Point {
    pub x: i64,
    pub y: i64,
}

/// An intersection of two segments: the intersection point and the
/// parametric position along the first segment, scaled by 1000.
#[derive(Clone, Copy, PartialEq, Eq, Structural, Debug)]
pub struct Hit {
    pub point: Point,
    pub t: i64,
}

/// The point lies within the coordinate range the kernel accepts.
pub open spec fn in_seg_bounds(p: Point) -> bool {
    -SEG_BOUND <= p.x <= SEG_BOUND && -SEG_BOUND <= p.y <= SEG_BOUND
}

/// Numerator of the intersection parameter `t` along segment `a -> b`,
/// in the standard cross-product parametric form.
pub open spec fn t_num(a: Point, b: Point, c: Point, d: Point) -> int {
    (d.x - c.x) * (a.y - c.y) - (d.y - c.y) * (a.x - c.x)
}

/// Numerator of the intersection parameter `u` along segment `c -> d`.
pub open spec fn u_num(a: Point, b: Point, c: Point, d: Point) -> int {
    (b.x - a.x) * (a.y - c.y) - (b.y - a.y) * (a.x - c.x)
}

/// Common denominator of both intersection parameters; zero exactly
/// when the two segments are parallel (or collinear).
pub open spec fn den(a: Point, b: Point, c: Point, d: Point) -> int {
    (d.y - c.y) * (b.x - a.x) - (d.x - c.x) * (b.y - a.y)
}

/// The rational `n / d` lies in the closed unit interval.
pub open spec fn in_unit(n: int, d: int) -> bool {
    if d > 0 {
        0 <= n <= d
    } else {
        d <= n <= 0
    }
}

/// The two segments meet at a point that lies on both of them.
pub open spec fn hit_exists(a: Point, b: Point, c: Point, d: Point) -> bool {
    den(a, b, c, d) != 0 && in_unit(t_num(a, b, c, d), den(a, b, c, d)) && in_unit(
        u_num(a, b, c, d),
        den(a, b, c, d),
    )
}

/// The intersection parameter `t` along `a -> b`, scaled by 1000 and
/// rounded down.
pub open spec fn t_scaled(a: Point, b: Point, c: Point, d: Point) -> int {
    let n = if den(a, b, c, d) < 0 {
        -t_num(a, b, c, d)
    } else {
        t_num(a, b, c, d)
    };
    let d0 = if den(a, b, c, d) < 0 {
        -den(a, b, c, d)
    } else {
        den(a, b, c, d)
    };
    n * 1000 / d0
}

/// Linear interpolation from `a` to `b` by `t / 1000`, rounded toward `a`.
pub open spec fn spec_lerp(a: int, b: int, t: int) -> int {
    if b >= a {
        a + (b - a) * t / 1000
    } else {
        a - (a - b) * t / 1000
    }
}

/// `a + (b - a) * t` for a fixed-point factor `t` in `[0, 1]`; the result
/// never leaves the closed interval spanned by `a` and `b`.
pub fn lerp_milli(a: i64, b: i64, t: i64) -> (r: i64)
    requires
        0 <= t <= 1000,
        -SEG_BOUND <= a <= SEG_BOUND,
        -SEG_BOUND <= b <= SEG_BOUND,
    ensures
        r == spec_lerp(a as int, b as int, t as int),
        a <= b ==> a <= r <= b,
        b <= a ==> b <= r <= a,
{
    if b >= a {
        let diff: i64 = b - a;
        assert(0 <= diff * t <= diff * 1000) by (nonlinear_arith)
            requires
                0 <= diff,
                0 <= t <= 1000,
        ;
        let step: i64 = diff * t / 1000;
        assert(step <= diff) by (nonlinear_arith)
            requires
                step == diff * t / 1000,
                diff * t <= diff * 1000,
                0 <= diff,
        ;
        a + step
    } else {
        let diff: i64 = a - b;
        assert(0 <= diff * t <= diff * 1000) by (nonlinear_arith)
            requires
                0 <= diff,
                0 <= t <= 1000,
        ;
        let step: i64 = diff * t / 1000;
        assert(step <= diff) by (nonlinear_arith)
            requires
                step == diff * t / 1000,
                diff * t <= diff * 1000,
                0 <= diff,
        ;
        a - step
    }
}

/// Intersection of segments `a -> b` and `c -> d` in the cross-product
/// parametric form: `None` when the segments are parallel or the
/// parameters fall outside `[0, 1]`; otherwise the intersection point
/// (interpolated along `a -> b`) together with the scaled parameter `t`.
pub fn get_intersection(a: Point, b: Point, c: Point, d: Point) -> (r: Option<Hit>)
    requires
        in_seg_bounds(a),
        in_seg_bounds(b),
        in_seg_bounds(c),
        in_seg_bounds(d),
    ensures
        r is Some <==> hit_exists(a, b, c, d),
        r is Some ==> {
            let hit = r->Some_0;
            &&& hit.t == t_scaled(a, b, c, d)
            &&& 0 <= hit.t <= 1000
            &&& hit.point.x == spec_lerp(a.x as int, b.x as int, hit.t as int)
            &&& hit.point.y == spec_lerp(a.y as int, b.y as int, hit.t as int)
        },
{
    let p: i128 = b.x as i128 - a.x as i128;
    let q: i128 = b.y as i128 - a.y as i128;
    let rr: i128 = d.x as i128 - c.x as i128;
    let s: i128 = d.y as i128 - c.y as i128;
    let e: i128 = a.x as i128 - c.x as i128;
    let f: i128 = a.y as i128 - c.y as i128;

    proof {
        lemma_diff_product_bound(rr as int, f as int);
        lemma_diff_product_bound(s as int, e as int);
        lemma_diff_product_bound(p as int, f as int);
        lemma_diff_product_bound(q as int, e as int);
        lemma_diff_product_bound(s as int, p as int);
        lemma_diff_product_bound(rr as int, q as int);
    }
    let mut tn: i128 = rr * f - s * e;
    let mut un: i128 = p * f - q * e;
    let mut dn: i128 = s * p - rr * q;

    assert(tn == t_num(a, b, c, d) && un == u_num(a, b, c, d) && dn == den(a, b, c, d));

    if dn == 0 {
        return None;
    }
    if dn < 0 {
        tn = -tn;
        un = -un;
        dn = -dn;
    }
    if tn < 0 || tn > dn || un < 0 || un > dn {
        return None;
    }
    assert(0 <= tn as int * 1000 <= dn as int * 1000) by (nonlinear_arith)
        requires
            0 <= tn as int <= dn as int,
    ;
    assert(0 <= tn as int * 1000 / (dn as int) <= 1000) by (nonlinear_arith)
        requires
            0 <= tn as int * 1000 <= dn as int * 1000,
            0 < dn as int,
    ;
    let t = (tn * 1000 / dn) as i64;
    assert(t == t_scaled(a, b, c, d));
    Some(Hit { point: Point { x: lerp_milli(a.x, b.x, t), y: lerp_milli(a.y, b.y, t) }, t })
}

/// Integer division rounded toward zero, the way the executable `/`
/// behaves on signed machine integers.
pub open spec fn spec_div_trunc(n: int, d: int) -> int {
    if n >= 0 {
        n / d
    } else {
        -((-n) / d)
    }
}

/// `v * m / d` rounded toward zero.
pub open spec fn spec_muldiv(v: int, m: int, d: int) -> int {
    spec_div_trunc(v * m, d)
}

/// Fixed-point scaling: multiplies `v` by the factor `m / d`, rounding
/// toward zero. The intermediate product is taken in 128 bits, so only
/// the stated argument ranges are required.
pub fn muldiv(v: i64, m: i64, d: i64) -> (r: i64)
    requires
        -SEG_BOUND <= v <= SEG_BOUND,
        -1_000_000_000 <= m <= 1_000_000_000,
        1000 <= d <= 1_000_000_000,
    ensures
        r == spec_muldiv(v as int, m as int, d as int),
        -2_000_000_000_000_000_000 <= r <= 2_000_000_000_000_000_000,
{
    assert(-2_000_000_000_000_000_000_000 <= v as int * m as int
        <= 2_000_000_000_000_000_000_000) by (nonlinear_arith)
        requires
            -SEG_BOUND <= v as int <= SEG_BOUND,
            -1_000_000_000 <= m as int <= 1_000_000_000,
    ;
    let p: i128 = v as i128 * m as i128;
    let q: i128 = if p >= 0 {
        p / d as i128
    } else {
        -((-p) / d as i128)
    };
    proof {
        lemma_div_trunc_shrinks(p as int, d as int);
    }
    q as i64
}

/// Division by a positive number rounded toward zero never grows the
/// magnitude beyond the quotient of the magnitudes.
proof fn lemma_div_trunc_shrinks(n: int, d: int)
    requires
        d >= 1,
    ensures
        n >= 0 ==> 0 <= spec_div_trunc(n, d) <= n / d,
        n < 0 ==> 0 >= spec_div_trunc(n, d) >= -((-n) / d),
        -2_000_000_000_000_000_000_000 <= n <= 2_000_000_000_000_000_000_000 && d >= 1000
            ==> -2_000_000_000_000_000_000 <= spec_div_trunc(n, d) <= 2_000_000_000_000_000_000,
{
    if n >= 0 {
        assert(0 <= n / d <= n) by (nonlinear_arith)
            requires
                n >= 0,
                d >= 1,
        ;
        if n <= 2_000_000_000_000_000_000_000 && d >= 1000 {
            assert(n / d <= 2_000_000_000_000_000_000) by (nonlinear_arith)
                requires
                    0 <= n <= 2_000_000_000_000_000_000_000,
                    d >= 1000,
            ;
        }
    } else {
        assert(0 <= (-n) / d <= -n) by (nonlinear_arith)
            requires
                n < 0,
                d >= 1,
        ;
        if -n <= 2_000_000_000_000_000_000_000 && d >= 1000 {
            assert((-n) / d <= 2_000_000_000_000_000_000) by (nonlinear_arith)
                requires
                    0 <= -n <= 2_000_000_000_000_000_000_000,
                    d >= 1000,
            ;
        }
    }
}

/// The scaled value keeps the sign of `v * m` and its magnitude is
/// bounded by the magnitude bound of `v * m` divided by `d`.
pub proof fn lemma_muldiv_bound(v: int, m: int, d: int, vb: int, mb: int)
    requires
        -vb <= v <= vb,
        -mb <= m <= mb,
        0 <= vb,
        0 <= mb,
        d >= 1,
    ensures
        -(vb * mb / d) <= spec_muldiv(v, m, d) <= vb * mb / d,
{
    let p = v * m;
    assert(-(vb * mb) <= p <= vb * mb) by (nonlinear_arith)
        requires
            -vb <= v <= vb,
            -mb <= m <= mb,
            0 <= vb,
            0 <= mb,
            p == v * m,
    ;
    if p >= 0 {
        assert(0 <= p / d <= vb * mb / d) by (nonlinear_arith)
            requires
                0 <= p <= vb * mb,
                d >= 1,
        ;
    } else {
        assert(0 <= (-p) / d <= vb * mb / d) by (nonlinear_arith)
            requires
                0 <= -p <= vb * mb,
                d >= 1,
        ;
    }
}

/// Scaling a nonnegative value by a nonnegative factor stays
/// nonnegative.
pub proof fn lemma_muldiv_nonneg(v: int, m: int, d: int)
    requires
        0 <= v,
        0 <= m,
        1 <= d,
    ensures
        0 <= spec_muldiv(v, m, d),
{
    assert(0 <= v * m) by (nonlinear_arith)
        requires
            0 <= v,
            0 <= m,
    ;
    assert(0 <= v * m / d) by (nonlinear_arith)
        requires
            0 <= v * m,
            1 <= d,
    ;
}

/// Scaling by a factor of at most one shrinks a value toward zero
/// without changing its sign.
pub proof fn lemma_muldiv_shrinks(v: int, f: int, d: int)
    requires
        0 <= f <= d,
        1 <= d,
    ensures
        v >= 0 ==> 0 <= spec_muldiv(v, f, d) <= v,
        v < 0 ==> v <= spec_muldiv(v, f, d) <= 0,
{
    if v >= 0 {
        assert(0 <= v * f <= v * d) by (nonlinear_arith)
            requires
                0 <= v,
                0 <= f <= d,
        ;
        assert(0 <= v * f / d <= v) by (nonlinear_arith)
            requires
                0 <= v * f <= v * d,
                1 <= d,
        ;
    } else {
        assert(0 <= (-v) * f <= (-v) * d) by (nonlinear_arith)
            requires
                v < 0,
                0 <= f <= d,
        ;
        assert(0 <= (-v) * f / d <= -v) by (nonlinear_arith)
            requires
                0 <= (-v) * f <= (-v) * d,
                1 <= d,
        ;
        assert(v * f == -((-v) * f)) by (nonlinear_arith);
    }
}

/// The product of two in-range coordinate differences stays far inside
/// the `i128` range.
proof fn lemma_diff_product_bound(x: int, y: int)
    requires
        -2 * SEG_BOUND <= x <= 2 * SEG_BOUND,
        -2 * SEG_BOUND <= y <= 2 * SEG_BOUND,
    ensures
        -16_000_000_000_000_000_000_000_000 <= x * y <= 16_000_000_000_000_000_000_000_000,
{
    assert(-16_000_000_000_000_000_000_000_000 <= x * y <= 16_000_000_000_000_000_000_000_000)
        by (nonlinear_arith)
        requires
            -4_000_000_000_000 <= x <= 4_000_000_000_000,
            -4_000_000_000_000 <= y <= 4_000_000_000_000,
    ;
}

/// The segments' direction vectors are parallel (their cross product
/// vanishes); covers collinear segments as well.
pub open spec fn parallel(a: Point, b: Point, c: Point, d: Point) -> bool {
    (b.x - a.x) * (d.y - c.y) == (b.y - a.y) * (d.x - c.x)
}

/// Intersection is symmetric in the two segments: swapping them negates
/// the shared denominator and exchanges the roles of the two parameter
/// numerators, so both calls report a hit on exactly the same inputs;
/// and the exact rational intersection points of the two calls coincide,
/// stated here multiplied out by the common denominator.
pub proof fn lemma_intersection_symmetry(a: Point, b: Point, c: Point, d: Point)
    ensures
        den(c, d, a, b) == -den(a, b, c, d),
        t_num(c, d, a, b) == -u_num(a, b, c, d),
        u_num(c, d, a, b) == -t_num(a, b, c, d),
        hit_exists(c, d, a, b) == hit_exists(a, b, c, d),
        den(a, b, c, d) * a.x + t_num(a, b, c, d) * (b.x - a.x) == den(a, b, c, d) * c.x + u_num(
            a,
            b,
            c,
            d,
        ) * (d.x - c.x),
        den(a, b, c, d) * a.y + t_num(a, b, c, d) * (b.y - a.y) == den(a, b, c, d) * c.y + u_num(
            a,
            b,
            c,
            d,
        ) * (d.y - c.y),
{
    let p = b.x - a.x;
    let q = b.y - a.y;
    let r = d.x - c.x;
    let s = d.y - c.y;
    let e = a.x - c.x;
    let f = a.y - c.y;
    let tn = t_num(a, b, c, d);
    let un = u_num(a, b, c, d);
    let dn = den(a, b, c, d);
    assert(tn == r * f - s * e) by (nonlinear_arith)
        requires
            tn == t_num(a, b, c, d),
            r == d.x - c.x,
            s == d.y - c.y,
            e == a.x - c.x,
            f == a.y - c.y,
    ;
    assert(un == p * f - q * e) by (nonlinear_arith)
        requires
            un == u_num(a, b, c, d),
            p == b.x - a.x,
            q == b.y - a.y,
            e == a.x - c.x,
            f == a.y - c.y,
    ;
    assert(dn == s * p - r * q) by (nonlinear_arith)
        requires
            dn == den(a, b, c, d),
            p == b.x - a.x,
            q == b.y - a.y,
            r == d.x - c.x,
            s == d.y - c.y,
    ;
    assert(den(c, d, a, b) == -dn) by (nonlinear_arith)
        requires
            den(c, d, a, b) == (b.y - a.y) * (d.x - c.x) - (b.x - a.x) * (d.y - c.y),
            dn == den(a, b, c, d),
            den(a, b, c, d) == (d.y - c.y) * (b.x - a.x) - (d.x - c.x) * (b.y - a.y),
    ;
    assert(t_num(c, d, a, b) == -un) by (nonlinear_arith)
        requires
            t_num(c, d, a, b) == (b.x - a.x) * (c.y - a.y) - (b.y - a.y) * (c.x - a.x),
            un == (b.x - a.x) * (a.y - c.y) - (b.y - a.y) * (a.x - c.x),
    ;
    assert(u_num(c, d, a, b) == -tn) by (nonlinear_arith)
        requires
            u_num(c, d, a, b) == (d.x - c.x) * (c.y - a.y) - (d.y - c.y) * (c.x - a.x),
            tn == (d.x - c.x) * (a.y - c.y) - (d.y - c.y) * (a.x - c.x),
    ;
    assert(in_unit(-tn, -dn) == in_unit(tn, dn));
    assert(in_unit(-un, -dn) == in_unit(un, dn));
    assert(dn * e + tn * p - un * r == 0) by (nonlinear_arith)
        requires
            tn == r * f - s * e,
            un == p * f - q * e,
            dn == s * p - r * q,
    ;
    assert(dn * a.x + tn * p - (dn * c.x + un * r) == dn * e + tn * p - un * r) by (nonlinear_arith)
        requires
            e == a.x - c.x,
    ;
    assert(dn * f + tn * q - un * s == 0) by (nonlinear_arith)
        requires
            tn == r * f - s * e,
            un == p * f - q * e,
            dn == s * p - r * q,
    ;
    assert(dn * a.y + tn * q - (dn * c.y + un * s) == dn * f + tn * q - un * s) by (nonlinear_arith)
        requires
            f == a.y - c.y,
    ;
}

/// Parallel (or collinear) segments never intersect: the parametric
/// denominator vanishes and the kernel reports no hit.
pub proof fn lemma_parallel_segments_never_intersect(a: Point, b: Point, c: Point, d: Point)
    requires
        parallel(a, b, c, d),
    ensures
        den(a, b, c, d) == 0,
        !hit_exists(a, b, c, d),
{
    assert(den(a, b, c, d) == 0) by (nonlinear_arith)
        requires
            parallel(a, b, c, d),
    ;
}

/// Segments that share an endpoint and are not parallel always report a
/// hit, with the parameter `t` exactly at a boundary: 0 when the shared
/// point is the first segment's start, 1000 when it is its end.
pub proof fn lemma_endpoint_touch_hits(a: Point, b: Point, c: Point, d: Point)
    requires
        den(a, b, c, d) != 0,
        a == c || a == d || b == c || b == d,
    ensures
        hit_exists(a, b, c, d),
        a == c || a == d ==> t_scaled(a, b, c, d) == 0,
        b == c || b == d ==> t_scaled(a, b, c, d) == 1000,
{
    let tn = t_num(a, b, c, d);
    let un = u_num(a, b, c, d);
    let dn = den(a, b, c, d);
    if (a == c || a == d) && (b == c || b == d) {
        // sharing both endpoints makes the segments collinear, which the
        // nonzero denominator rules out
        assert(dn == 0) by (nonlinear_arith)
            requires
                dn == (d.y - c.y) * (b.x - a.x) - (d.x - c.x) * (b.y - a.y),
                (a.x == c.x && a.y == c.y) || (a.x == d.x && a.y == d.y),
                (b.x == c.x && b.y == c.y) || (b.x == d.x && b.y == d.y),
        ;
        assert(false);
    }
    if a == c {
        assert(tn == 0) by (nonlinear_arith)
            requires
                tn == (d.x - c.x) * (a.y - c.y) - (d.y - c.y) * (a.x - c.x),
                a.x == c.x,
                a.y == c.y,
        ;
        assert(un == 0) by (nonlinear_arith)
            requires
                un == (b.x - a.x) * (a.y - c.y) - (b.y - a.y) * (a.x - c.x),
                a.x == c.x,
                a.y == c.y,
        ;
    } else if a == d {
        assert(tn == 0) by (nonlinear_arith)
            requires
                tn == (d.x - c.x) * (a.y - c.y) - (d.y - c.y) * (a.x - c.x),
                a.x == d.x,
                a.y == d.y,
        ;
        assert(un == dn) by (nonlinear_arith)
            requires
                un == (b.x - a.x) * (a.y - c.y) - (b.y - a.y) * (a.x - c.x),
                dn == (d.y - c.y) * (b.x - a.x) - (d.x - c.x) * (b.y - a.y),
                a.x == d.x,
                a.y == d.y,
        ;
    } else if b == c {
        assert(tn == dn) by (nonlinear_arith)
            requires
                tn == (d.x - c.x) * (a.y - c.y) - (d.y - c.y) * (a.x - c.x),
                dn == (d.y - c.y) * (b.x - a.x) - (d.x - c.x) * (b.y - a.y),
                b.x == c.x,
                b.y == c.y,
        ;
        assert(un == 0) by (nonlinear_arith)
            requires
                un == (b.x - a.x) * (a.y - c.y) - (b.y - a.y) * (a.x - c.x),
                b.x == c.x,
                b.y == c.y,
        ;
    } else {
        assert(tn == dn) by (nonlinear_arith)
            requires
                tn == (d.x - c.x) * (a.y - c.y) - (d.y - c.y) * (a.x - c.x),
                dn == (d.y - c.y) * (b.x - a.x) - (d.x - c.x) * (b.y - a.y),
                b.x == d.x,
                b.y == d.y,
        ;
        assert(un == dn) by (nonlinear_arith)
            requires
                un == (b.x - a.x) * (a.y - c.y) - (b.y - a.y) * (a.x - c.x),
                dn == (d.y - c.y) * (b.x - a.x) - (d.x - c.x) * (b.y - a.y),
                b.x == d.x,
                b.y == d.y,
        ;
    }
    let n = if dn < 0 {
        -tn
    } else {
        tn
    };
    let d0 = if dn < 0 {
        -dn
    } else {
        dn
    };
    if tn == 0 {
        assert(n * 1000 == 0);
        assert(n * 1000 / d0 == 0) by (nonlinear_arith)
            requires
                n * 1000 == 0,
                d0 > 0,
        ;
    } else {
        assert(n == d0);
        assert(d0 * 1000 / d0 == 1000) by (nonlinear_arith)
            requires
                d0 > 0,
        ;
    }
}

} // verus!
