//! Fixed-point 3-vectors and the unbounded integer vectors that force sums
//! and contracts are stated over.

use vstd::prelude::*;
use crate::scalar::{tdiv, isqrt_spec, isqrt, div_trunc, lemma_tdiv_quot_bound, lemma_isqrt_bounds, lemma_mul_mag, lemma_mul_mag2, SCALE};

verus! {

/// A 3-vector of fixed-point scalars (thousandths of a unit).
#[derive(Clone, Copy, PartialEq, Eq, Structural, Debug)]
pub struct V3 {
    pub x: i64,
    pub y: i64,
    pub z: i64,
}

/// A 3-vector of unbounded integers: the mathematical model of `V3`.
pub ghost struct V3g {
    pub x: int,
    pub y: int,
    pub z: int,
}

impl V3 {
    /// The mathematical value of this vector.
    pub open spec fn g(self) -> V3g {
        V3g { x: self.x as int, y: self.y as int, z: self.z as int }
    }

    pub fn new(x: i64, y: i64, z: i64) -> (r: V3)
        ensures
            r == (V3 { x, y, z }),
    {
        V3 { x, y, z }
    }

    pub fn zero() -> (r: V3)
        ensures
            r.g() == zerog(),
    {
        V3 { x: 0, y: 0, z: 0 }
    }
}

pub open spec fn zerog() -> V3g {
    V3g { x: 0, y: 0, z: 0 }
}

pub open spec fn addg(a: V3g, b: V3g) -> V3g {
    V3g { x: a.x + b.x, y: a.y + b.y, z: a.z + b.z }
}

pub open spec fn subg(a: V3g, b: V3g) -> V3g {
    V3g { x: a.x - b.x, y: a.y - b.y, z: a.z - b.z }
}

pub open spec fn negg(a: V3g) -> V3g {
    V3g { x: -a.x, y: -a.y, z: -a.z }
}

pub open spec fn crossg(a: V3g, b: V3g) -> V3g {
    V3g {
        x: a.y * b.z - a.z * b.y,
        y: a.z * b.x - a.x * b.z,
        z: a.x * b.y - a.y * b.x,
    }
}

/// Squared length, in squared fixed-point steps.
pub open spec fn len2g(a: V3g) -> int {
    a.x * a.x + a.y * a.y + a.z * a.z
}

/// All three components within m in magnitude.
pub open spec fn v3g_bounded(a: V3g, m: int) -> bool {
    -m <= a.x <= m && -m <= a.y <= m && -m <= a.z <= m
}

/// The unit vector along v, scaled to SCALE, or zero when v is zero:
/// each component becomes SCALE * c / floor(sqrt(|v|^2)), rounded toward
/// zero. Zero length yields zero rather than a division fault.
pub open spec fn norm_or_zero_g(v: V3g) -> V3g {
    let n2 = len2g(v);
    if n2 == 0 {
        zerog()
    } else {
        let s = isqrt_spec(n2);
        V3g {
            x: tdiv(SCALE * v.x, s),
            y: tdiv(SCALE * v.y, s),
            z: tdiv(SCALE * v.z, s),
        }
    }
}

/// A nonzero vector has a positive floor square root of its squared length.
pub proof fn lemma_len2_pos(v: V3g)
    requires
        len2g(v) != 0,
    ensures
        len2g(v) >= 1,
        isqrt_spec(len2g(v)) >= 1,
{
    assert(v.x * v.x >= 0) by (nonlinear_arith);
    assert(v.y * v.y >= 0) by (nonlinear_arith);
    assert(v.z * v.z >= 0) by (nonlinear_arith);
    lemma_isqrt_bounds(len2g(v));
    let s = isqrt_spec(len2g(v));
    if s == 0 {
        assert((s + 1) * (s + 1) == 1) by (nonlinear_arith)
            requires s == 0;
        assert(false);
    }
}

/// Normalizing keeps every component within SCALE * m once the input was
/// within m (a crude bound: the divisor is at least one).
pub proof fn lemma_norm_bound(v: V3g, m: int)
    requires
        0 <= m,
        v3g_bounded(v, m),
    ensures
        v3g_bounded(norm_or_zero_g(v), (SCALE as int) * m),
{
    assert((SCALE as int) * m >= 0) by (nonlinear_arith)
        requires m >= 0;
    if len2g(v) == 0 {
    } else {
        lemma_len2_pos(v);
        let s = isqrt_spec(len2g(v));
        lemma_mul_mag2(SCALE as int, v.x, SCALE as int, m);
        lemma_mul_mag2(SCALE as int, v.y, SCALE as int, m);
        lemma_mul_mag2(SCALE as int, v.z, SCALE as int, m);
        assert(((SCALE as int) * m) * s >= (SCALE as int) * m) by (nonlinear_arith)
            requires s >= 1 && (SCALE as int) * m >= 0;
        lemma_tdiv_quot_bound(SCALE as int * v.x, s, (SCALE as int) * m);
        lemma_tdiv_quot_bound(SCALE as int * v.y, s, (SCALE as int) * m);
        lemma_tdiv_quot_bound(SCALE as int * v.z, s, (SCALE as int) * m);
    }
}

/// Normalize-or-zero, executable.
pub fn norm_or_zero(v: &V3) -> (r: V3)
    requires
        v3g_bounded(v.g(), 1_000_000_000_000),
    ensures
        r.g() == norm_or_zero_g(v.g()),
{
    proof {
        lemma_mul_mag(v.g().x, v.g().x, 1_000_000_000_000);
        lemma_mul_mag(v.g().y, v.g().y, 1_000_000_000_000);
        lemma_mul_mag(v.g().z, v.g().z, 1_000_000_000_000);
    }
    let xx: i128 = (v.x as i128) * (v.x as i128);
    let yy: i128 = (v.y as i128) * (v.y as i128);
    let zz: i128 = (v.z as i128) * (v.z as i128);
    let n2: i128 = xx + yy + zz;
    if n2 == 0 {
        proof {
            assert(v.x == 0 && v.y == 0 && v.z == 0) by (nonlinear_arith)
                requires
                    (v.x as int) * (v.x as int) + (v.y as int) * (v.y as int) + (v.z as int) * (
                    v.z as int) == 0;
        }
        V3 { x: 0, y: 0, z: 0 }
    } else {
        proof {
            lemma_len2_pos(v.g());
        }
        let su: u128 = isqrt(n2 as u128);
        proof {
            assert(su as int <= 2_000_000_000_000) by (nonlinear_arith)
                requires
                    (su as int) * (su as int) <= 3_000_000_000_000_000_000_000_000,
                    su as int >= 0;
        }
        let s: i128 = su as i128;
        proof {
            assert(s as int == isqrt_spec(len2g(v.g())));
            assert(s >= 1);
            lemma_mul_mag2(SCALE as int, v.g().x, SCALE as int, 1_000_000_000_000);
            lemma_mul_mag2(SCALE as int, v.g().y, SCALE as int, 1_000_000_000_000);
            lemma_mul_mag2(SCALE as int, v.g().z, SCALE as int, 1_000_000_000_000);
            assert((1_000_000_000_000_000) * (s as int) >= 1_000_000_000_000_000)
                by (nonlinear_arith)
                requires s as int >= 1;
            lemma_tdiv_quot_bound(SCALE as int * v.g().x, s as int,
                1_000_000_000_000_000);
            lemma_tdiv_quot_bound(SCALE as int * v.g().y, s as int,
                1_000_000_000_000_000);
            lemma_tdiv_quot_bound(SCALE as int * v.g().z, s as int,
                1_000_000_000_000_000);
        }
        let rx: i128 = div_trunc((SCALE as i128) * (v.x as i128), s);
        let ry: i128 = div_trunc((SCALE as i128) * (v.y as i128), s);
        let rz: i128 = div_trunc((SCALE as i128) * (v.z as i128), s);
        V3 { x: rx as i64, y: ry as i64, z: rz as i64 }
    }
}

} // verus!
