//! Sine and cosine for fixed-point angles, through the cordic crate. The
//! values themselves are named, not stated: contracts downstream speak of
//! `sin_milli` and `cos_milli` exactly.

use vstd::prelude::*;
use crate::scalar::{tdiv, div_trunc, lemma_tdiv_quot_bound, SCALE};
use crate::quat::{Quat, Qg, quat_mul_g, quat_mul};

verus! {

/// The sine of an angle in thousandths of a radian, in thousandths.
pub uninterp spec fn sin_milli(a: int) -> int;

/// The cosine of an angle in thousandths of a radian, in thousandths.
pub uninterp spec fn cos_milli(a: int) -> int;

/// Relies on cordic::sin on the fixed crate's FixedI64 with 16 fraction
/// bits: the sine of the angle, a function of the angle alone, within
/// [-1, 1] and so within [-SCALE, SCALE] after rescaling.
#[verifier::external_body]
fn sin_fixed(a: i64) -> (r: i64)
    requires
        -6283 <= a <= 6283,
    ensures
        r == sin_milli(a as int),
        -(SCALE as int) <= r <= SCALE as int,
{
    let x = fixed::FixedI64::<fixed::types::extra::U16>::from_bits((a << 16) / 1000);
    let s = cordic::sin(x);
    (s.to_bits() * 1000) / 65536
}

/// Relies on cordic::cos on the fixed crate's FixedI64 with 16 fraction
/// bits: the cosine of the angle, a function of the angle alone, within
/// [-1, 1] and so within [-SCALE, SCALE] after rescaling.
#[verifier::external_body]
fn cos_fixed(a: i64) -> (r: i64)
    requires
        -6283 <= a <= 6283,
    ensures
        r == cos_milli(a as int),
        -(SCALE as int) <= r <= SCALE as int,
{
    let x = fixed::FixedI64::<fixed::types::extra::U16>::from_bits((a << 16) / 1000);
    let c = cordic::cos(x);
    (c.to_bits() * 1000) / 65536
}

/// Rotation about the local X axis (pitch) by `angle`, as a quaternion of
/// the half-angle's cosine and sine.
pub open spec fn axis_x_quatg(angle: int) -> Qg {
    Qg { w: cos_milli(tdiv(angle, 2)), x: sin_milli(tdiv(angle, 2)), y: 0, z: 0 }
}

/// Rotation about the local Y axis (yaw) by `angle`.
pub open spec fn axis_y_quatg(angle: int) -> Qg {
    Qg { w: cos_milli(tdiv(angle, 2)), x: 0, y: sin_milli(tdiv(angle, 2)), z: 0 }
}

/// The incremental look rotation for a pitch and a yaw: rotation about the
/// local X axis composed with rotation about the local Y axis, in that
/// order (the X-then-Y-then-Z Euler convention with a zero roll angle).
pub open spec fn look_quatg(pitch: int, yaw: int) -> Qg {
    quat_mul_g(axis_x_quatg(pitch), axis_y_quatg(yaw))
}

/// The incremental look rotation, executable.
pub fn look_quat(pitch: i64, yaw: i64) -> (q: Quat)
    requires
        -6283 <= pitch <= 6283,
        -6283 <= yaw <= 6283,
    ensures
        q.g() == look_quatg(pitch as int, yaw as int),
        crate::quat::qg_bounded(q.g(), 4_000),
{
    proof {
        lemma_tdiv_quot_bound(pitch as int, 2, 6283);
        lemma_tdiv_quot_bound(yaw as int, 2, 6283);
    }
    let hp = div_trunc(pitch as i128, 2) as i64;
    let hy = div_trunc(yaw as i128, 2) as i64;
    let qx = Quat { w: cos_fixed(hp), x: sin_fixed(hp), y: 0, z: 0 };
    let qy = Quat { w: cos_fixed(hy), x: 0, y: sin_fixed(hy), z: 0 };
    let r = quat_mul(&qx, &qy);
    proof {
        crate::quat::lemma_quat_mul_g_bound(qx.g(), qy.g(), SCALE as int, SCALE as int, 4_000);
    }
    r
}

} // verus!
