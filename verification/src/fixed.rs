//! Signed fixed-point scalars with 16 fractional bits.
//!
//! A stored value `v: i64` denotes the real number `v / SCALE`.  All scalar
//! arithmetic of the renderer reduces to the exact integer operations defined
//! here: truncating multiplication and division, and an integer square root.

use vstd::prelude::*;

verus! {

/// Scale factor of the fixed-point format: a stored `v` denotes `v / SCALE`.
pub const SCALE: i64 = 65536;

/// Largest magnitude admitted for a position coordinate (about 2^25 world units).
pub const POS_MAX: i64 = 0x20000000000;

/// Largest magnitude admitted for a ray-direction coordinate (about 2^15 world units).
pub const DIR_MAX: i64 = 0x80000000;

/// Largest ray parameter a bounded intersection query will accept; stands in
/// for "no far limit" within the machine range.
pub const T_MAX: i64 = 0x1000000000;

/// Truncating (round-toward-zero) division for a positive divisor: the
/// semantics of the executable divisions in this crate.
pub open spec fn tdiv(a: int, b: int) -> int {
    if a >= 0 {
        a / b
    } else {
        -((-a) / b)
    }
}

/// Product of two fixed-point scalars.
pub open spec fn spec_mul(a: int, b: int) -> int {
    tdiv(a * b, SCALE as int)
}

/// Quotient of two fixed-point scalars (positive divisor).
pub open spec fn spec_div(a: int, b: int) -> int {
    tdiv(a * SCALE, b)
}

/// Floor of the square root of `n` (0 for negative arguments).
pub open spec fn isqrt(n: int) -> int
    decreases n,
{
    if n <= 0 {
        0
    } else {
        let r = isqrt(n - 1);
        if (r + 1) * (r + 1) <= n {
            r + 1
        } else {
            r
        }
    }
}

/// Square root of a nonnegative fixed-point scalar.
pub open spec fn spec_sqrt(x: int) -> int {
    isqrt(x * SCALE)
}

/// The smaller of two integers.
pub open spec fn spec_min(a: int, b: int) -> int {
    if a <= b {
        a
    } else {
        b
    }
}

/// Magnitude of an integer.
pub open spec fn spec_abs(a: int) -> int {
    if a >= 0 {
        a
    } else {
        -a
    }
}

/// `x` forced into the interval `[lo, hi]`.
pub open spec fn spec_clamp(x: int, lo: int, hi: int) -> int {
    if x < lo {
        lo
    } else if x > hi {
        hi
    } else {
        x
    }
}

/// |a| <= ca and |b| <= cb bound the product: |a * b| <= ca * cb.
pub proof fn lemma_abs_mul_bound(a: int, b: int, ca: int, cb: int)
    by (nonlinear_arith)
    requires
        -ca <= a <= ca,
        -cb <= b <= cb,
    ensures
        -(ca * cb) <= a * b <= ca * cb,
{
}

/// Multiplying both factors by nonnegative values keeps the order.
pub proof fn lemma_mul_le_mul(a: int, b: int, c: int, d: int)
    by (nonlinear_arith)
    requires
        0 <= a <= c,
        0 <= b <= d,
    ensures
        a * b <= c * d,
{
}

/// The integer square root lies between the two enclosing perfect squares.
pub proof fn lemma_isqrt_bounds(n: int)
    requires
        n >= 0,
    ensures
        isqrt(n) >= 0,
        isqrt(n) * isqrt(n) <= n,
        (isqrt(n) + 1) * (isqrt(n) + 1) > n,
    decreases n,
{
    if n == 0 {
        assert(isqrt(0) == 0);
    } else {
        lemma_isqrt_bounds(n - 1);
        let r = isqrt(n - 1);
        if (r + 1) * (r + 1) <= n {
            assert(isqrt(n) == r + 1);
            assert((r + 2) * (r + 2) > n) by (nonlinear_arith)
                requires
                    r >= 0,
                    (r + 1) * (r + 1) > n - 1;
        } else {
            assert(isqrt(n) == r);
        }
    }
}

/// Any `r` enclosed by the same perfect squares equals `isqrt(n)`.
pub proof fn lemma_isqrt_unique(n: int, r: int)
    requires
        n >= 0,
        r >= 0,
        r * r <= n,
        (r + 1) * (r + 1) > n,
    ensures
        r == isqrt(n),
{
    lemma_isqrt_bounds(n);
    let s = isqrt(n);
    if r < s {
        assert((r + 1) * (r + 1) <= s * s) by (nonlinear_arith)
            requires
                0 <= r,
                r + 1 <= s;
    }
    if s < r {
        assert((s + 1) * (s + 1) <= r * r) by (nonlinear_arith)
            requires
                0 <= s,
                s + 1 <= r;
    }
}

/// The square root is monotone.
pub proof fn lemma_isqrt_le(a: int, b: int)
    requires
        0 <= a <= b,
    ensures
        isqrt(a) <= isqrt(b),
{
    lemma_isqrt_bounds(a);
    lemma_isqrt_bounds(b);
    let ra = isqrt(a);
    let rb = isqrt(b);
    if rb < ra {
        assert((rb + 1) * (rb + 1) <= ra * ra) by (nonlinear_arith)
            requires
                0 <= rb,
                rb + 1 <= ra;
    }
}

/// A square above `n` bounds the root from above.
pub proof fn lemma_isqrt_lt(n: int, m: int)
    requires
        n >= 0,
        m >= 0,
        m * m > n,
    ensures
        isqrt(n) < m,
{
    lemma_isqrt_bounds(n);
    if isqrt(n) >= m {
        lemma_mul_le_mul(m, m, isqrt(n), isqrt(n));
    }
}

/// The square root of a perfect square.
pub proof fn lemma_isqrt_square(x: int)
    requires
        x >= 0,
    ensures
        isqrt(x * x) == x,
{
    assert(x * x >= 0) by (nonlinear_arith);
    assert((x + 1) * (x + 1) > x * x) by (nonlinear_arith)
        requires
            x >= 0;
    lemma_isqrt_unique(x * x, x);
}

/// A bound on the dividend gives a bound on the truncating quotient.
pub proof fn lemma_tdiv_bound(a: int, b: int, m: int)
    requires
        b >= 1,
        m >= 0,
        -(b * m) <= a <= b * m,
    ensures
        -m <= tdiv(a, b) <= m,
{
    if a >= 0 {
        lemma_tdiv_nonneg_bound(a, b, m);
    } else {
        lemma_tdiv_nonneg_bound(-a, b, m);
    }
}

/// Bound for the nonnegative case of `tdiv`.
proof fn lemma_tdiv_nonneg_bound(a: int, b: int, m: int)
    requires
        b >= 1,
        m >= 0,
        0 <= a <= b * m,
    ensures
        0 <= a / b <= m,
{
    vstd::arithmetic::div_mod::lemma_div_pos_is_pos(a, b);
    vstd::arithmetic::div_mod::lemma_div_is_ordered(a, b * m, b);
    vstd::arithmetic::div_mod::lemma_div_by_multiple(m, b);
    assert(b * m == m * b) by (nonlinear_arith);
}

/// A lower bound on the dividend gives a lower bound on the quotient.
pub proof fn lemma_tdiv_lower(a: int, b: int, c: int)
    requires
        b >= 1,
        c >= 0,
        a >= b * c,
    ensures
        tdiv(a, b) >= c,
{
    assert(b * c >= 0) by (nonlinear_arith)
        requires
            b >= 1,
            c >= 0;
    vstd::arithmetic::div_mod::lemma_div_is_ordered(b * c, a, b);
    vstd::arithmetic::div_mod::lemma_div_by_multiple(c, b);
    assert(b * c == c * b) by (nonlinear_arith);
}

/// Truncating division is odd: negating the dividend negates the quotient.
pub proof fn lemma_tdiv_neg(a: int, b: int)
    requires
        b >= 1,
    ensures
        tdiv(-a, b) == -tdiv(a, b),
{
    vstd::arithmetic::div_mod::lemma_div_of0(b);
}

/// Truncating division keeps the sign of the dividend.
pub proof fn lemma_tdiv_sign(a: int, b: int)
    requires
        b >= 1,
    ensures
        a >= 0 ==> tdiv(a, b) >= 0,
        a <= 0 ==> tdiv(a, b) <= 0,
        a >= 0 ==> tdiv(a, b) <= a,
        a <= 0 ==> tdiv(a, b) >= a,
{
    if a >= 0 {
        vstd::arithmetic::div_mod::lemma_div_pos_is_pos(a, b);
        vstd::arithmetic::div_mod::lemma_div_nonincreasing(a, b);
    } else {
        vstd::arithmetic::div_mod::lemma_div_pos_is_pos(-a, b);
        vstd::arithmetic::div_mod::lemma_div_nonincreasing(-a, b);
    }
}

/// The fixed-point product of two scalars in [0, 1] stays in [0, 1].
pub proof fn lemma_unit_mul_range(a: int, b: int)
    requires
        0 <= a <= 65536,
        0 <= b <= 65536,
    ensures
        0 <= spec_mul(a, b) <= 65536,
{
    lemma_abs_mul_bound(a, b, 65536, 65536);
    lemma_tdiv_bound(a * b, 65536, 65536);
    assert(a * b >= 0) by (nonlinear_arith)
        requires
            a >= 0,
            b >= 0;
    lemma_tdiv_sign(a * b, 65536);
}

/// Truncating division, rounding toward zero; the divisor must be positive.
pub fn div_trunc(a: i128, b: i128) -> (r: i128)
    requires
        b >= 1,
        a > i128::MIN,
    ensures
        r == tdiv(a as int, b as int),
{
    if a >= 0 {
        let q: u128 = (a as u128) / (b as u128);
        proof {
            vstd::arithmetic::div_mod::lemma_div_nonincreasing(a as int, b as int);
            vstd::arithmetic::div_mod::lemma_div_pos_is_pos(a as int, b as int);
        }
        q as i128
    } else {
        let n: i128 = -a;
        let q: u128 = (n as u128) / (b as u128);
        proof {
            vstd::arithmetic::div_mod::lemma_div_nonincreasing(n as int, b as int);
            vstd::arithmetic::div_mod::lemma_div_pos_is_pos(n as int, b as int);
        }
        -(q as i128)
    }
}

/// Integer square root by bisection.
pub fn sqrt_u128(n: u128) -> (r: u64)
    requires
        n < 0x40000000000000000000000000000000,
    ensures
        r == isqrt(n as int),
{
    let mut lo: u128 = 0;
    let mut hi: u128 = 0x8000000000000000;
    proof {
        assert(hi * hi > n) by (nonlinear_arith)
            requires
                hi == 0x8000000000000000,
                n < 0x40000000000000000000000000000000;
    }
    while lo + 1 < hi
        invariant
            lo < hi,
            hi <= 0x8000000000000000,
            lo * lo <= n,
            hi * hi > n,
            n < 0x40000000000000000000000000000000,
        decreases hi - lo,
    {
        let mid: u128 = lo + (hi - lo) / 2;
        assert(lo < mid < hi);
        assert(mid * mid <= 0x40000000000000000000000000000000) by (nonlinear_arith)
            requires
                0 <= mid,
                mid <= 0x8000000000000000;
        if mid * mid <= n {
            lo = mid;
        } else {
            hi = mid;
        }
    }
    proof {
        lemma_isqrt_unique(n as int, lo as int);
    }
    lo as u64
}

/// Integer square root of a nonnegative `i128` quantity.
pub fn sqrt_i128(n: i128) -> (r: i128)
    requires
        0 <= n < 0x40000000000000000000000000000000,
    ensures
        r == isqrt(n as int),
        r >= 0,
{
    proof {
        lemma_isqrt_bounds(n as int);
    }
    sqrt_u128(n as u128) as i128
}

/// Product of two fixed-point scalars.
pub fn fx_mul(a: i64, b: i64) -> (r: i64)
    requires
        -i64::MAX <= spec_mul(a as int, b as int) <= i64::MAX,
    ensures
        r == spec_mul(a as int, b as int),
{
    let p: i128 = (a as i128) * (b as i128);
    let q: i128 = div_trunc(p, SCALE as i128);
    q as i64
}

/// Quotient of two fixed-point scalars; the divisor must be positive.
pub fn fx_div(a: i64, b: i64) -> (r: i64)
    requires
        b >= 1,
        -i64::MAX <= spec_div(a as int, b as int) <= i64::MAX,
    ensures
        r == spec_div(a as int, b as int),
{
    let p: i128 = (a as i128) * (SCALE as i128);
    let q: i128 = div_trunc(p, b as i128);
    q as i64
}

/// Square root of a nonnegative fixed-point scalar.
pub fn fx_sqrt(x: i64) -> (r: i64)
    requires
        x >= 0,
    ensures
        r == spec_sqrt(x as int),
        r >= 0,
{
    let n: u128 = (x as u128) * 65536;
    proof {
        lemma_isqrt_bounds(n as int);
        assert(n < 0x10000000000000000000000);
        lemma_isqrt_lt(n as int, 0x1000000000000);
    }
    let r: u64 = sqrt_u128(n);
    r as i64
}

/// `x` forced into the interval `[lo, hi]`.
pub fn clamp128(x: i128, lo: i64, hi: i64) -> (r: i64)
    requires
        lo <= hi,
    ensures
        r == spec_clamp(x as int, lo as int, hi as int),
{
    if x < lo as i128 {
        lo
    } else if x > hi as i128 {
        hi
    } else {
        x as i64
    }
}

/// `x` forced into the interval `[lo, hi]`, on scalars.
pub fn clamp64(x: i64, lo: i64, hi: i64) -> (r: i64)
    requires
        lo <= hi,
    ensures
        r == spec_clamp(x as int, lo as int, hi as int),
{
    if x < lo {
        lo
    } else if x > hi {
        hi
    } else {
        x
    }
}

} // verus!
