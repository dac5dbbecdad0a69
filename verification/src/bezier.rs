//! Cubic Bézier evaluation in fixed point.
//!
//! The spinner's bloom curve leaves the origin toward one control
//! direction, and lands on the rim toward another; the curve is the cubic
//! with control points (origin, `u`, `v`, `b`). The parameter runs over
//! `[0, FIXED_ONE]`, and a single division at the end keeps the sample an
//! exact convex combination of the controls, so a curve whose controls lie
//! in the closed unit disk never leaves it.

use vstd::prelude::*;

verus! {

use crate::fixed::{FIXED_ONE, Vec2, tdiv, norm2, div_trunc, lemma_tdiv_sq_bound};

/// Bernstein weight of the control `u` at parameter `t` over scale `s`.
pub open spec fn bez_w1(s: int, t: int) -> int {
    3 * (s - t) * (s - t) * t
}

/// Bernstein weight of the control `v` at parameter `t` over scale `s`.
pub open spec fn bez_w2(s: int, t: int) -> int {
    3 * (s - t) * t * t
}

/// Bernstein weight of the endpoint `b` at parameter `t` over scale `s`.
pub open spec fn bez_w3(s: int, t: int) -> int {
    t * t * t
}

/// The cubic curve from the origin with controls `u`, `v` and endpoint `b`,
/// sampled at `t` in `[0, FIXED_ONE]`.
pub open spec fn bezier_point(u: Vec2, v: Vec2, b: Vec2, t: int) -> (int, int) {
    let s = FIXED_ONE as int;
    let nx = bez_w1(s, t) * u.x + bez_w2(s, t) * v.x + bez_w3(s, t) * b.x;
    let ny = bez_w1(s, t) * u.y + bez_w2(s, t) * v.y + bez_w3(s, t) * b.y;
    (tdiv(nx, s * s * s), tdiv(ny, s * s * s))
}

/// The dot product of two vectors is bounded by the product of their
/// squared lengths (the Cauchy-Schwarz inequality, in squared form).
proof fn lemma_cauchy_schwarz(ax: int, ay: int, bx: int, by: int)
    ensures
        (ax * bx + ay * by) * (ax * bx + ay * by) <= (ax * ax + ay * ay) * (bx * bx + by * by),
{
    let p = ax * bx;
    let q = ay * by;
    let r = ax * by;
    let w = ay * bx;
    assert((ax * bx + ay * by) * (ax * bx + ay * by) == p * p + 2 * (p * q) + q * q)
        by (nonlinear_arith)
        requires p == ax * bx && q == ay * by;
    assert(p * q == r * w) by (nonlinear_arith)
        requires p == ax * bx && q == ay * by && r == ax * by && w == ay * bx;
    let sa = ax * ax;
    let sb = ay * ay;
    let sc = bx * bx;
    let sd = by * by;
    assert((sa + sb) * (sc + sd) == sa * sc + sa * sd + sb * sc + sb * sd) by (nonlinear_arith);
    assert(sa * sc == p * p) by (nonlinear_arith)
        requires sa == ax * ax && sc == bx * bx && p == ax * bx;
    assert(sa * sd == r * r) by (nonlinear_arith)
        requires sa == ax * ax && sd == by * by && r == ax * by;
    assert(sb * sc == w * w) by (nonlinear_arith)
        requires sb == ay * ay && sc == bx * bx && w == ay * bx;
    assert(sb * sd == q * q) by (nonlinear_arith)
        requires sb == ay * ay && sd == by * by && q == ay * by;
    assert((ax * ax + ay * ay) * (bx * bx + by * by) == p * p + r * r + w * w + q * q);
    assert(r * r + w * w - 2 * (r * w) == (r - w) * (r - w) && (r - w) * (r - w) >= 0)
        by (nonlinear_arith);
}

/// Two vectors of bounded length have a bounded sum: from
/// `|A| <= al` and `|B| <= bl` follows `|A + B| <= al + bl`, in squared
/// form (the triangle inequality).
proof fn lemma_sum_two(ax: int, ay: int, bx: int, by: int, al: int, bl: int)
    requires
        al >= 0,
        bl >= 0,
        ax * ax + ay * ay <= al * al,
        bx * bx + by * by <= bl * bl,
    ensures
        (ax + bx) * (ax + bx) + (ay + by) * (ay + by) <= (al + bl) * (al + bl),
{
    let dot = ax * bx + ay * by;
    lemma_cauchy_schwarz(ax, ay, bx, by);
    assert(ax * ax + ay * ay >= 0 && bx * bx + by * by >= 0) by (nonlinear_arith);
    assert(dot <= al * bl) by (nonlinear_arith)
        requires
            dot * dot <= (ax * ax + ay * ay) * (bx * bx + by * by),
            0 <= ax * ax + ay * ay <= al * al,
            0 <= bx * bx + by * by <= bl * bl,
            al >= 0,
            bl >= 0;
    assert((ax + bx) * (ax + bx) + (ay + by) * (ay + by) <= (al + bl) * (al + bl))
        by (nonlinear_arith)
        requires
            ax * bx + ay * by <= al * bl,
            ax * ax + ay * ay <= al * al,
            bx * bx + by * by <= bl * bl;
}

/// Scaling a vector of the disk of radius `m` by a nonnegative weight `w`
/// keeps it within radius `w * m`, in squared form.
proof fn lemma_scaled(w: int, p: Vec2, m: int)
    requires
        w >= 0,
        m >= 0,
        norm2(p) <= m * m,
    ensures
        (w * p.x) * (w * p.x) + (w * p.y) * (w * p.y) <= (w * m) * (w * m),
{
    assert((w * p.x) * (w * p.x) + (w * p.y) * (w * p.y) <= (w * m) * (w * m))
        by (nonlinear_arith)
        requires w >= 0 && m >= 0 && p.x * p.x + p.y * p.y <= m * m;
}

/// A nonnegative combination of three vectors of the disk of radius `m`
/// has length at most the sum of its weights times `m`, in squared form.
proof fn lemma_comb_bound(w1: int, w2: int, w3: int, u: Vec2, v: Vec2, b: Vec2, m: int)
    requires
        w1 >= 0,
        w2 >= 0,
        w3 >= 0,
        m >= 0,
        norm2(u) <= m * m,
        norm2(v) <= m * m,
        norm2(b) <= m * m,
    ensures
        ({
            let nx = w1 * u.x + w2 * v.x + w3 * b.x;
            let ny = w1 * u.y + w2 * v.y + w3 * b.y;
            nx * nx + ny * ny <= ((w1 + w2 + w3) * (w1 + w2 + w3)) * (m * m)
        }),
{
    lemma_scaled(w1, u, m);
    lemma_scaled(w2, v, m);
    lemma_scaled(w3, b, m);
    assert(w1 * m >= 0 && w2 * m >= 0 && w3 * m >= 0) by (nonlinear_arith)
        requires w1 >= 0 && w2 >= 0 && w3 >= 0 && m >= 0;
    lemma_sum_two(w1 * u.x, w1 * u.y, w2 * v.x, w2 * v.y, w1 * m, w2 * m);
    lemma_sum_two(
        w1 * u.x + w2 * v.x,
        w1 * u.y + w2 * v.y,
        w3 * b.x,
        w3 * b.y,
        w1 * m + w2 * m,
        w3 * m,
    );
    assert((w1 * m + w2 * m + w3 * m) * (w1 * m + w2 * m + w3 * m) == ((w1 + w2 + w3) * (w1 + w2
        + w3)) * (m * m)) by (nonlinear_arith);
}

/// The Bernstein weights are nonnegative and sum to at most the cube of
/// the scale, for parameters within the scale.
proof fn lemma_weights(s: int, t: int)
    requires
        0 <= t <= s,
    ensures
        bez_w1(s, t) >= 0,
        bez_w2(s, t) >= 0,
        bez_w3(s, t) >= 0,
        bez_w1(s, t) + bez_w2(s, t) + bez_w3(s, t) <= s * s * s,
{
    assert(3 * (s - t) * (s - t) * t >= 0 && 3 * (s - t) * t * t >= 0 && t * t * t >= 0
        && 3 * (s - t) * (s - t) * t + 3 * (s - t) * t * t + t * t * t + (s - t) * (s - t) * (s
        - t) == s * s * s && (s - t) * (s - t) * (s - t) >= 0) by (nonlinear_arith)
        requires 0 <= t <= s;
}

/// A sample of the curve stays in the disk that holds its controls.
pub proof fn lemma_bezier_in_disk(u: Vec2, v: Vec2, b: Vec2, t: int)
    requires
        0 <= t <= FIXED_ONE,
        norm2(u) <= FIXED_ONE * FIXED_ONE,
        norm2(v) <= FIXED_ONE * FIXED_ONE,
        norm2(b) <= FIXED_ONE * FIXED_ONE,
    ensures
        ({
            let (rx, ry) = bezier_point(u, v, b, t);
            rx * rx + ry * ry <= FIXED_ONE * FIXED_ONE
        }),
{
    let s = FIXED_ONE as int;
    let m = FIXED_ONE as int;
    let w1 = bez_w1(s, t);
    let w2 = bez_w2(s, t);
    let w3 = bez_w3(s, t);
    lemma_weights(s, t);
    lemma_comb_bound(w1, w2, w3, u, v, b, m);
    let nx = w1 * u.x + w2 * v.x + w3 * b.x;
    let ny = w1 * u.y + w2 * v.y + w3 * b.y;
    let d = s * s * s;
    let rx = tdiv(nx, d);
    let ry = tdiv(ny, d);
    lemma_tdiv_sq_bound(nx, d);
    lemma_tdiv_sq_bound(ny, d);
    assert(((w1 + w2 + w3) * (w1 + w2 + w3)) * (m * m) <= (d * d) * (m * m)) by (nonlinear_arith)
        requires 0 <= w1 + w2 + w3 <= d && m * m >= 0;
    assert((rx * rx + ry * ry) * (d * d) <= (d * d) * (m * m)) by (nonlinear_arith)
        requires
            rx * rx * (d * d) <= nx * nx,
            ry * ry * (d * d) <= ny * ny,
            nx * nx + ny * ny <= (d * d) * (m * m);
    assert(rx * rx + ry * ry <= m * m) by (nonlinear_arith)
        requires (rx * rx + ry * ry) * (d * d) <= (d * d) * (m * m) && d >= 1;
}

/// Samples the curve at `t`; the result is pinned to [`bezier_point`] and
/// stays in the unit disk when the controls do.
pub fn bezier_sample(u: Vec2, v: Vec2, b: Vec2, t: i64) -> (r: Vec2)
    requires
        0 <= t <= FIXED_ONE,
        -FIXED_ONE <= u.x <= FIXED_ONE,
        -FIXED_ONE <= u.y <= FIXED_ONE,
        -FIXED_ONE <= v.x <= FIXED_ONE,
        -FIXED_ONE <= v.y <= FIXED_ONE,
        -FIXED_ONE <= b.x <= FIXED_ONE,
        -FIXED_ONE <= b.y <= FIXED_ONE,
        norm2(u) <= FIXED_ONE * FIXED_ONE,
        norm2(v) <= FIXED_ONE * FIXED_ONE,
        norm2(b) <= FIXED_ONE * FIXED_ONE,
    ensures
        (r.x as int, r.y as int) == bezier_point(u, v, b, t as int),
        norm2(r) <= FIXED_ONE * FIXED_ONE,
        -FIXED_ONE <= r.x <= FIXED_ONE,
        -FIXED_ONE <= r.y <= FIXED_ONE,
{
    let s: i64 = FIXED_ONE;
    proof {
        assert(0 <= 3 * (s - t) * (s - t) <= 3_000_000i64
            && 0 <= 3 * (s - t) * (s - t) * t <= 3_000_000_000_000i64
            && 0 <= 3 * (s - t) * t <= 3_000_000i64
            && 0 <= 3 * (s - t) * t * t <= 3_000_000_000_000i64
            && 0 <= t * t <= 1_000_000i64
            && 0 <= t * t * t <= 1_000_000_000i64) by (nonlinear_arith)
            requires 0 <= t <= s && s == 1000i64;
    }
    let w1: i64 = 3 * (s - t) * (s - t) * t;
    let w2: i64 = 3 * (s - t) * t * t;
    let w3: i64 = t * t * t;
    let nx: i64 = bounded_term(w1, u.x) + bounded_term(w2, v.x) + bounded_term(w3, b.x);
    let ny: i64 = bounded_term(w1, u.y) + bounded_term(w2, v.y) + bounded_term(w3, b.y);
    let d: i64 = 1_000_000_000;
    let rx: i64 = div_trunc(nx, d);
    let ry: i64 = div_trunc(ny, d);
    proof {
        assert(d == s * s * s);
        lemma_bezier_in_disk(u, v, b, t as int);
        let (px, py) = bezier_point(u, v, b, t as int);
        assert(rx == px && ry == py);
        assert(rx * rx >= 0 && ry * ry >= 0) by (nonlinear_arith);
        assert(-FIXED_ONE <= rx <= FIXED_ONE && -FIXED_ONE <= ry <= FIXED_ONE)
            by (nonlinear_arith)
            requires
                rx * rx + ry * ry <= FIXED_ONE * FIXED_ONE,
                rx * rx >= 0,
                ry * ry >= 0,
                FIXED_ONE == 1000i64;
    }
    Vec2 { x: rx, y: ry }
}

/// One weighted term of the combination, kept within `i64`.
fn bounded_term(w: i64, c: i64) -> (r: i64)
    requires
        0 <= w <= 3_000_000_000_000i64,
        -1000 <= c <= 1000,
    ensures
        r == w * c,
        -3_000_000_000_000_000i64 <= r <= 3_000_000_000_000_000i64,
{
    proof {
        assert(-3_000_000_000_000_000i64 <= w * c <= 3_000_000_000_000_000i64)
            by (nonlinear_arith)
            requires 0 <= w <= 3_000_000_000_000i64 && -1000 <= c <= 1000;
    }
    w * c
}

} // verus!
