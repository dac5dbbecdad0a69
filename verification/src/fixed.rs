//! Fixed-point scalars and 2D vectors.
//!
//! All geometry is carried as signed 64-bit integers scaled by [`FIXED_ONE`]:
//! one world unit is `FIXED_ONE` raw steps. Working in integers keeps every
//! run bit-reproducible from its seed, which floating point would not.

use vstd::prelude::*;

verus! {

use vstd::arithmetic::div_mod::{lemma_div_is_ordered, lemma_fundamental_div_mod};

/// Raw steps in one world unit.
pub const FIXED_ONE: i64 = 1000;

/// Largest magnitude a world coordinate may take, in raw steps.
pub const COORD_LIMIT: i64 = 1_000_000_000;

/// A 2D point or direction in fixed-point world coordinates.
#[derive(Clone, Copy, PartialEq, Eq, Structural, Debug)]
pub struct Vec2 {
    pub x: i64,
    pub y: i64,
}

pub open spec fn in_coord_range(x: int) -> bool {
    -COORD_LIMIT <= x <= COORD_LIMIT
}

pub open spec fn vec_in_range(v: Vec2) -> bool {
    in_coord_range(v.x as int) && in_coord_range(v.y as int)
}

/// Squared Euclidean length of `v`.
pub open spec fn norm2(v: Vec2) -> int {
    v.x * v.x + v.y * v.y
}

/// Squared distance between two points.
pub open spec fn dist2(a: Vec2, b: Vec2) -> int {
    (a.x - b.x) * (a.x - b.x) + (a.y - b.y) * (a.y - b.y)
}

/// A coordinate pushed back into the world range.
pub open spec fn clamp_coord(x: int) -> int {
    if x < -COORD_LIMIT {
        -COORD_LIMIT as int
    } else if x > COORD_LIMIT {
        COORD_LIMIT as int
    } else {
        x
    }
}

/// Division that rounds toward zero, as the machine division does;
/// defined for positive divisors.
pub open spec fn tdiv(a: int, d: int) -> int {
    if a >= 0 {
        a / d
    } else {
        -((-a) / d)
    }
}

/// `r` is the least integer whose square reaches `n`.
pub open spec fn is_sqrt_ceil(n: int, r: int) -> bool {
    &&& 0 <= r
    &&& r * r >= n
    &&& (r == 0 || (r - 1) * (r - 1) < n)
}

/// The least integer whose square reaches `n` (for `n >= 0`).
pub open spec fn sqrt_ceil(n: int) -> int {
    choose|r: int| #[trigger] is_sqrt_ceil(n, r)
}

proof fn lemma_sqrt_ceil_exists(n: int)
    requires
        n >= 0,
    ensures
        exists|r: int| #[trigger] is_sqrt_ceil(n, r),
    decreases n,
{
    if n == 0 {
        assert(is_sqrt_ceil(0, 0));
    } else {
        lemma_sqrt_ceil_exists(n - 1);
        let r = choose|r: int| #[trigger] is_sqrt_ceil(n - 1, r);
        if r * r >= n {
            assert(is_sqrt_ceil(n, r));
        } else {
            assert(r * r == n - 1);
            assert((r + 1) * (r + 1) >= n) by (nonlinear_arith)
                requires r * r == n - 1 && r >= 0;
            assert(is_sqrt_ceil(n, r + 1));
        }
    }
}

proof fn lemma_sqrt_ceil_unique(n: int, r1: int, r2: int)
    requires
        is_sqrt_ceil(n, r1),
        is_sqrt_ceil(n, r2),
    ensures
        r1 == r2,
{
    if r1 < r2 {
        assert(r1 <= r2 - 1);
        assert(r1 * r1 < n) by (nonlinear_arith)
            requires 0 <= r1 <= r2 - 1 && (r2 - 1) * (r2 - 1) < n;
        assert(false);
    }
    if r2 < r1 {
        assert(r2 * r2 < n) by (nonlinear_arith)
            requires 0 <= r2 <= r1 - 1 && (r1 - 1) * (r1 - 1) < n;
        assert(false);
    }
}

/// Whatever satisfies the square-root characterization is `sqrt_ceil`.
pub proof fn lemma_sqrt_ceil_is(n: int, r: int)
    requires
        n >= 0,
        is_sqrt_ceil(n, r),
    ensures
        r == sqrt_ceil(n),
{
    lemma_sqrt_ceil_exists(n);
    let c = sqrt_ceil(n);
    assert(is_sqrt_ceil(n, c));
    lemma_sqrt_ceil_unique(n, r, c);
}

/// Least `r: u64` with `r * r >= n`, by binary search.
pub fn isqrt_ceil(n: u64) -> (r: u64)
    requires
        n <= 0xFFFF_FFFE_0000_0001,
    ensures
        is_sqrt_ceil(n as int, r as int),
        r == sqrt_ceil(n as int),
        r <= 0xFFFF_FFFF,
{
    let mut lo: u64 = 0;
    let mut hi: u64 = 0xFFFF_FFFF;
    assert(0xFFFF_FFFFu64 * 0xFFFF_FFFFu64 >= n);
    while lo < hi
        invariant
            lo <= hi <= 0xFFFF_FFFF,
            hi * hi >= n,
            lo == 0 || (lo - 1) * (lo - 1) < n,
        decreases hi - lo,
    {
        let mid: u64 = lo + (hi - lo) / 2;
        proof {
            assert(mid * mid <= 0xFFFF_FFFFu64 * 0xFFFF_FFFFu64) by (nonlinear_arith)
                requires mid <= 0xFFFF_FFFFu64;
        }
        if mid * mid >= n {
            hi = mid;
        } else {
            lo = mid + 1;
        }
    }
    proof {
        lemma_sqrt_ceil_is(n as int, lo as int);
    }
    lo
}

/// Magnitude of `x` as an unsigned value.
pub fn abs64(x: i64) -> (r: u64)
    requires
        x > i64::MIN,
    ensures
        r == if x >= 0 { x as int } else { -x as int },
{
    if x >= 0 {
        x as u64
    } else {
        (-x) as u64
    }
}

/// Truncating division on signed fixed-point values, positive divisor.
pub fn div_trunc(a: i64, d: i64) -> (r: i64)
    requires
        d > 0,
        a > i64::MIN,
    ensures
        r == tdiv(a as int, d as int),
{
    if a >= 0 {
        let q: u64 = (a as u64) / (d as u64);
        proof {
            lemma_div_is_ordered(q as int, a as int, 1);
            assert(a as u64 / d as u64 <= a as u64) by (nonlinear_arith)
                requires d as u64 >= 1;
        }
        q as i64
    } else {
        let m: u64 = (-a) as u64;
        let q: u64 = m / (d as u64);
        proof {
            assert(m / (d as u64) <= m) by (nonlinear_arith)
                requires d as u64 >= 1;
        }
        -(q as i64)
    }
}

/// Truncation toward zero never grows the magnitude past the real quotient:
/// the square of `tdiv(a, d)` times `d * d` stays under `a * a`.
pub proof fn lemma_tdiv_sq_bound(a: int, d: int)
    requires
        d > 0,
    ensures
        tdiv(a, d) * tdiv(a, d) * (d * d) <= a * a,
{
    let m = if a >= 0 { a } else { -a };
    let q = m / d;
    lemma_fundamental_div_mod(m, d);
    assert(q * d <= m);
    assert(q >= 0) by (nonlinear_arith)
        requires d > 0 && m >= 0 && q == m / d;
    assert((q * d) * (q * d) <= m * m) by (nonlinear_arith)
        requires 0 <= q * d <= m;
    assert(q * q * (d * d) == (q * d) * (q * d)) by (nonlinear_arith);
    assert(tdiv(a, d) * tdiv(a, d) == q * q) by (nonlinear_arith)
        requires (a >= 0 && tdiv(a, d) == q) || (a < 0 && tdiv(a, d) == -q);
    assert(m * m == a * a) by (nonlinear_arith)
        requires m == a || m == -a;
}

/// Truncating division by `d` of anything within `m * d` stays within `m`.
pub proof fn lemma_tdiv_le_bound(a: int, d: int, m: int)
    requires
        d > 0,
        m >= 0,
        -(m * d) <= a <= m * d,
    ensures
        -m <= tdiv(a, d) <= m,
{
    if a >= 0 {
        assert(a <= d * m) by (nonlinear_arith)
            requires a <= m * d;
        vstd::arithmetic::div_mod::lemma_multiply_divide_le(a, d, m);
        assert(a / d >= 0) by (nonlinear_arith)
            requires a >= 0 && d > 0;
    } else {
        assert(-a <= d * m) by (nonlinear_arith)
            requires -a <= m * d;
        vstd::arithmetic::div_mod::lemma_multiply_divide_le(-a, d, m);
        assert((-a) / d >= 0) by (nonlinear_arith)
            requires -a >= 0 && d > 0;
    }
}

/// The clamped vector: unchanged while its length is within `max`,
/// otherwise rescaled by `max` over the ceiling square root of its
/// squared length.
pub open spec fn clamp_vec(v: Vec2, max: int) -> (int, int) {
    if norm2(v) <= max * max {
        (v.x as int, v.y as int)
    } else {
        let l = sqrt_ceil(norm2(v));
        (tdiv(v.x * max, l), tdiv(v.y * max, l))
    }
}

/// The clamped vector never exceeds length `max`.
pub proof fn lemma_clamp_vec_bound(v: Vec2, max: int)
    requires
        max >= 0,
    ensures
        ({
            let (rx, ry) = clamp_vec(v, max);
            rx * rx + ry * ry <= max * max
        }),
{
    let n2 = norm2(v);
    assert(v.x * v.x >= 0 && v.y * v.y >= 0 && max * max >= 0) by (nonlinear_arith);
    if n2 <= max * max {
    } else {
        lemma_sqrt_ceil_exists(n2);
        let l = sqrt_ceil(n2);
        assert(is_sqrt_ceil(n2, l));
        assert(l >= 1) by (nonlinear_arith)
            requires l >= 0 && l * l >= n2 && n2 > 0;
        let rx = tdiv(v.x * max, l);
        let ry = tdiv(v.y * max, l);
        lemma_tdiv_sq_bound(v.x * max, l);
        lemma_tdiv_sq_bound(v.y * max, l);
        assert((v.x * max) * (v.x * max) + (v.y * max) * (v.y * max) == n2 * (max * max))
            by (nonlinear_arith)
            requires n2 == v.x * v.x + v.y * v.y;
        assert(n2 * (max * max) <= (l * l) * (max * max)) by (nonlinear_arith)
            requires n2 <= l * l && max * max >= 0;
        assert((rx * rx + ry * ry) * (l * l) <= (l * l) * (max * max)) by (nonlinear_arith)
            requires
                rx * rx * (l * l) <= (v.x * max) * (v.x * max),
                ry * ry * (l * l) <= (v.y * max) * (v.y * max),
                (v.x * max) * (v.x * max) + (v.y * max) * (v.y * max) <= (l * l) * (max * max);
        assert(rx * rx + ry * ry <= max * max) by (nonlinear_arith)
            requires (rx * rx + ry * ry) * (l * l) <= (l * l) * (max * max) && l >= 1;
    }
}

/// Clamps `v` to length at most `max`, keeping its direction.
pub fn clamp_length_max(v: Vec2, max: i64) -> (r: Vec2)
    requires
        0 <= max <= COORD_LIMIT,
        -2 * COORD_LIMIT <= v.x <= 2 * COORD_LIMIT,
        -2 * COORD_LIMIT <= v.y <= 2 * COORD_LIMIT,
    ensures
        (r.x as int, r.y as int) == clamp_vec(v, max as int),
        norm2(r) <= max * max,
        norm2(v) <= max * max ==> r == v,
{
    proof {
        assert(v.x * v.x >= 0 && v.y * v.y >= 0 && max * max >= 0) by (nonlinear_arith);
    }
    let xa: u64 = abs64(v.x);
    let ya: u64 = abs64(v.y);
    proof {
        assert(xa * xa == v.x * v.x && ya * ya == v.y * v.y) by (nonlinear_arith)
            requires
                (xa == v.x || xa == -v.x) && (ya == v.y || ya == -v.y);
        assert(xa * xa <= 4_000_000_000_000_000_000 && ya * ya <= 4_000_000_000_000_000_000)
            by (nonlinear_arith)
            requires xa <= 2_000_000_000 && ya <= 2_000_000_000;
    }
    let n2: u64 = xa * xa + ya * ya;
    proof {
        assert((max as u64) * (max as u64) <= 1_000_000_000_000_000_000) by (nonlinear_arith)
            requires max as u64 <= 1_000_000_000;
    }
    let maxsq: u64 = (max as u64) * (max as u64);
    if n2 <= maxsq {
        proof {
            assert(norm2(v) <= max * max);
        }
        v
    } else {
        let l: u64 = isqrt_ceil(n2);
        proof {
            assert(l >= 1) by (nonlinear_arith)
                requires l * l >= n2 && n2 > 0;
        }
        let rx: i64 = div_trunc(mul_in_range(v.x, max, 2 * COORD_LIMIT, COORD_LIMIT), l as i64);
        let ry: i64 = div_trunc(mul_in_range(v.y, max, 2 * COORD_LIMIT, COORD_LIMIT), l as i64);
        proof {
            lemma_clamp_vec_bound(v, max as int);
        }
        Vec2 { x: rx, y: ry }
    }
}

/// Product of two bounded fixed-point values; the bounds keep it in `i64`.
pub fn mul_in_range(a: i64, b: i64, abound: i64, bbound: i64) -> (r: i64)
    requires
        0 <= abound,
        0 <= bbound,
        -abound <= a <= abound,
        -bbound <= b <= bbound,
        abound * bbound <= i64::MAX,
    ensures
        r == a * b,
        -(abound * bbound) <= r <= abound * bbound,
{
    proof {
        assert(-(abound * bbound) <= a * b <= abound * bbound) by (nonlinear_arith)
            requires
                -abound <= a <= abound && -bbound <= b <= bbound && 0 <= abound && 0 <= bbound;
    }
    a * b
}

/// Sum of two coordinates, pulled back into the world range.
pub fn sat_add_coord(a: i64, b: i64) -> (r: i64)
    requires
        -4 * COORD_LIMIT <= a <= 4 * COORD_LIMIT,
        -4 * COORD_LIMIT <= b <= 4 * COORD_LIMIT,
    ensures
        r == clamp_coord(a + b),
        in_coord_range(r as int),
{
    let s: i64 = a + b;
    if s < -COORD_LIMIT {
        -COORD_LIMIT
    } else if s > COORD_LIMIT {
        COORD_LIMIT
    } else {
        s
    }
}

} // verus!
