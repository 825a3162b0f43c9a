//! Fixed-point scalar arithmetic: truncating division and integer square
//! root, the two primitives every integrator formula is built from.

use vstd::prelude::*;

verus! {

/// Number of fixed-point steps per unit: a scalar value v is stored as the
/// integer v * SCALE, counting thousandths.
pub const SCALE: i64 = 1000;

/// Division that rounds toward zero, the rounding of every fixed-point
/// quotient in this crate (spec `/` alone rounds toward negative infinity
/// for negative dividends).
pub open spec fn tdiv(a: int, b: int) -> int {
    if a >= 0 {
        a / b
    } else {
        -((-a) / b)
    }
}

/// Dividing a nonnegative value by a positive one never increases it.
pub proof fn lemma_div_le(a: int, b: int)
    requires
        a >= 0,
        b >= 1,
    ensures
        0 <= a / b <= a,
{
    assert(0 <= a / b <= a) by (nonlinear_arith)
        requires a >= 0 && b >= 1;
}

/// The magnitude of a truncating quotient: |tdiv(a, b)| <= m once |a| <= m * b.
pub proof fn lemma_tdiv_quot_bound(a: int, b: int, m: int)
    requires
        b >= 1,
        m >= 0,
        -(m * b) <= a <= m * b,
    ensures
        -m <= tdiv(a, b) <= m,
{
    vstd::arithmetic::div_mod::lemma_div_multiples_vanish(m, b);
    if a >= 0 {
        vstd::arithmetic::div_mod::lemma_div_is_ordered(a, b * m, b);
        lemma_div_le(a, b);
        assert(b * m == m * b) by (nonlinear_arith);
    } else {
        vstd::arithmetic::div_mod::lemma_div_is_ordered(-a, b * m, b);
        lemma_div_le(-a, b);
        assert(b * m == m * b) by (nonlinear_arith);
    }
}

/// A product of two values within m stays within m * m.
pub proof fn lemma_mul_mag(a: int, b: int, m: int)
    requires
        0 <= m,
        -m <= a <= m,
        -m <= b <= m,
    ensures
        -(m * m) <= a * b <= m * m,
{
    assert(-(m * m) <= a * b <= m * m) by (nonlinear_arith)
        requires 0 <= m && -m <= a <= m && -m <= b <= m;
}

/// A product of values within ma and mb stays within ma * mb.
pub proof fn lemma_mul_mag2(a: int, b: int, ma: int, mb: int)
    requires
        0 <= ma,
        0 <= mb,
        -ma <= a <= ma,
        -mb <= b <= mb,
    ensures
        -(ma * mb) <= a * b <= ma * mb,
{
    assert(-(ma * mb) <= a * b <= ma * mb) by (nonlinear_arith)
        requires 0 <= ma && 0 <= mb && -ma <= a <= ma && -mb <= b <= mb;
}

/// Truncating division of a negated dividend negates the quotient exactly.
pub proof fn lemma_tdiv_neg(a: int, b: int)
    requires
        b >= 1,
    ensures
        tdiv(-a, b) == -tdiv(a, b),
{
}

/// Truncating division, executable. Works on magnitudes so that the
/// machine's rounding provably matches `tdiv`.
pub fn div_trunc(a: i128, b: i128) -> (r: i128)
    requires
        1 <= b,
        a > i128::MIN,
    ensures
        r == tdiv(a as int, b as int),
{
    let ub: u128 = b as u128;
    if a >= 0 {
        let ua: u128 = a as u128;
        let q: u128 = ua / ub;
        proof {
            lemma_div_le(ua as int, ub as int);
        }
        q as i128
    } else {
        let ua: u128 = (-a) as u128;
        let q: u128 = ua / ub;
        proof {
            lemma_div_le(ua as int, ub as int);
        }
        -(q as i128)
    }
}

/// Floor of the square root, defined by counting up.
pub open spec fn isqrt_spec(n: int) -> int
    decreases n,
{
    if n <= 0 {
        0
    } else {
        let r = isqrt_spec(n - 1);
        if (r + 1) * (r + 1) <= n {
            r + 1
        } else {
            r
        }
    }
}

/// `isqrt_spec(n)` really is the floor of the square root of n.
pub proof fn lemma_isqrt_bounds(n: int)
    requires
        n >= 0,
    ensures
        isqrt_spec(n) >= 0,
        isqrt_spec(n) * isqrt_spec(n) <= n,
        n < (isqrt_spec(n) + 1) * (isqrt_spec(n) + 1),
    decreases n,
{
    if n == 0 {
    } else {
        lemma_isqrt_bounds(n - 1);
        let r = isqrt_spec(n - 1);
        if (r + 1) * (r + 1) <= n {
            assert(n <= (r + 1) * (r + 1)) by (nonlinear_arith)
                requires n - 1 < (r + 1) * (r + 1);
            assert((r + 1) * (r + 1) < (r + 2) * (r + 2)) by (nonlinear_arith)
                requires r >= 0;
        }
    }
}

/// Any r with r*r <= n < (r+1)*(r+1) equals `isqrt_spec(n)`.
pub proof fn lemma_isqrt_unique(n: int, r: int)
    requires
        n >= 0,
        r >= 0,
        r * r <= n,
        n < (r + 1) * (r + 1),
    ensures
        r == isqrt_spec(n),
{
    lemma_isqrt_bounds(n);
    let s = isqrt_spec(n);
    if r < s {
        assert((r + 1) * (r + 1) <= s * s) by (nonlinear_arith)
            requires 0 <= r && r + 1 <= s;
        assert(false);
    }
    if r > s {
        assert((s + 1) * (s + 1) <= r * r) by (nonlinear_arith)
            requires 0 <= s && s + 1 <= r;
        assert(false);
    }
}

/// Floor square root, executable, by binary search.
pub fn isqrt(n: u128) -> (r: u128)
    ensures
        r == isqrt_spec(n as int),
        r * r <= n,
        n < (r + 1) * (r + 1),
{
    let mut lo: u128 = 0;
    let mut hi: u128 = 18446744073709551616;
    proof {
        assert((18446744073709551616 as int) * (18446744073709551616 as int) > u128::MAX as int);
    }
    while hi - lo > 1
        invariant
            lo < hi,
            hi <= 18446744073709551616,
            lo * lo <= n,
            (n as int) < (hi as int) * (hi as int),
        decreases hi - lo,
    {
        let mid: u128 = lo + (hi - lo) / 2;
        proof {
            assert((mid as int) * (mid as int) <= (18446744073709551615 as int) * (
            18446744073709551615 as int)) by (nonlinear_arith)
                requires 0 <= mid as int <= 18446744073709551615 as int;
            assert((18446744073709551615 as int) * (18446744073709551615 as int)
                <= u128::MAX as int);
        }
        if mid * mid <= n {
            lo = mid;
        } else {
            hi = mid;
        }
    }
    proof {
        lemma_isqrt_unique(n as int, lo as int);
    }
    lo
}

} // verus!
