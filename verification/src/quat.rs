//! Fixed-point quaternions: orientation state, composition, and the rotation
//! of a vector, all with exact integer contracts.

use vstd::prelude::*;
use crate::scalar::{tdiv, div_trunc, lemma_tdiv_quot_bound, lemma_mul_mag, lemma_mul_mag2, SCALE};
use crate::vec3::{V3, V3g, crossg};

verus! {

/// An orientation as a fixed-point quaternion (components in thousandths;
/// a unit orientation has squared norm about SCALE * SCALE).
#[derive(Clone, Copy, PartialEq, Eq, Structural, Debug)]
pub struct Quat {
    pub w: i64,
    pub x: i64,
    pub y: i64,
    pub z: i64,
}

/// A quaternion of unbounded integers: the mathematical model of `Quat`.
pub ghost struct Qg {
    pub w: int,
    pub x: int,
    pub y: int,
    pub z: int,
}

impl Quat {
    /// The mathematical value of this quaternion.
    pub open spec fn g(self) -> Qg {
        Qg { w: self.w as int, x: self.x as int, y: self.y as int, z: self.z as int }
    }

    /// The identity orientation.
    pub fn identity() -> (r: Quat)
        ensures
            r.g() == identityg(),
    {
        Quat { w: SCALE, x: 0, y: 0, z: 0 }
    }
}

pub open spec fn identityg() -> Qg {
    Qg { w: SCALE as int, x: 0, y: 0, z: 0 }
}

/// All four components within m in magnitude.
pub open spec fn qg_bounded(a: Qg, m: int) -> bool {
    -m <= a.w <= m && -m <= a.x <= m && -m <= a.y <= m && -m <= a.z <= m
}

/// The Hamilton product of two fixed-point quaternions, each component
/// rescaled by one truncating division by SCALE.
pub open spec fn quat_mul_g(a: Qg, b: Qg) -> Qg {
    Qg {
        w: tdiv(a.w * b.w - a.x * b.x - a.y * b.y - a.z * b.z, SCALE as int),
        x: tdiv(a.w * b.x + a.x * b.w + a.y * b.z - a.z * b.y, SCALE as int),
        y: tdiv(a.w * b.y - a.x * b.z + a.y * b.w + a.z * b.x, SCALE as int),
        z: tdiv(a.w * b.z + a.x * b.y - a.y * b.x + a.z * b.w, SCALE as int),
    }
}

/// Rotating the vector v by the unit orientation q:
/// with u the vector part of q and c = u x v, the result is
/// v + 2 * (w * c + u x c) / SCALE^2, rounded toward zero per component.
/// Rotating by the identity is exact: u = 0 makes every correction term zero.
pub open spec fn rotate_g(q: Qg, v: V3g) -> V3g {
    let u = V3g { x: q.x, y: q.y, z: q.z };
    let c = crossg(u, v);
    let d = crossg(u, c);
    V3g {
        x: v.x + tdiv(2 * (q.w * c.x + d.x), (SCALE as int) * (SCALE as int)),
        y: v.y + tdiv(2 * (q.w * c.y + d.y), (SCALE as int) * (SCALE as int)),
        z: v.z + tdiv(2 * (q.w * c.z + d.z), (SCALE as int) * (SCALE as int)),
    }
}

/// Rotating by the identity returns the vector unchanged.
pub proof fn lemma_rotate_identity(v: V3g)
    ensures
        rotate_g(identityg(), v) == v,
{
    let u = V3g { x: 0, y: 0, z: 0 };
    assert(crossg(u, v) == crate::vec3::zerog());
    assert(crossg(u, crate::vec3::zerog()) == crate::vec3::zerog());
    vstd::arithmetic::div_mod::lemma_div_of0((SCALE as int) * (SCALE as int));
    assert(rotate_g(identityg(), v).x == v.x);
    assert(rotate_g(identityg(), v).y == v.y);
    assert(rotate_g(identityg(), v).z == v.z);
}

/// Rotating the zero vector yields zero, whatever the orientation.
pub proof fn lemma_rotate_zero(q: Qg)
    ensures
        rotate_g(q, crate::vec3::zerog()) == crate::vec3::zerog(),
{
    let u = V3g { x: q.x, y: q.y, z: q.z };
    assert(crossg(u, crate::vec3::zerog()) == crate::vec3::zerog());
    assert(crossg(u, crossg(u, crate::vec3::zerog())) == crate::vec3::zerog());
    vstd::arithmetic::div_mod::lemma_div_of0((SCALE as int) * (SCALE as int));
    assert(rotate_g(q, crate::vec3::zerog()).x == 0);
    assert(rotate_g(q, crate::vec3::zerog()).y == 0);
    assert(rotate_g(q, crate::vec3::zerog()).z == 0);
}

/// Componentwise magnitude of a rotation: the input components plus the
/// rescaled correction terms.
pub proof fn lemma_rotate_g_bound(q: Qg, v: V3g)
    requires
        qg_bounded(q, 10_000),
        crate::vec3::v3g_bounded(v, 1_000_000_000_000),
    ensures
        crate::vec3::v3g_bounded(rotate_g(q, v), 3_000_000_000_000_000),
{
    let u = V3g { x: q.x, y: q.y, z: q.z };
    let c = crossg(u, v);
    lemma_mul_mag2(u.y, v.z, 10_000, 1_000_000_000_000);
    lemma_mul_mag2(u.z, v.y, 10_000, 1_000_000_000_000);
    lemma_mul_mag2(u.z, v.x, 10_000, 1_000_000_000_000);
    lemma_mul_mag2(u.x, v.z, 10_000, 1_000_000_000_000);
    lemma_mul_mag2(u.x, v.y, 10_000, 1_000_000_000_000);
    lemma_mul_mag2(u.y, v.x, 10_000, 1_000_000_000_000);
    let d = crossg(u, c);
    lemma_mul_mag2(u.y, c.z, 10_000, 20_000_000_000_000_000);
    lemma_mul_mag2(u.z, c.y, 10_000, 20_000_000_000_000_000);
    lemma_mul_mag2(u.z, c.x, 10_000, 20_000_000_000_000_000);
    lemma_mul_mag2(u.x, c.z, 10_000, 20_000_000_000_000_000);
    lemma_mul_mag2(u.x, c.y, 10_000, 20_000_000_000_000_000);
    lemma_mul_mag2(u.y, c.x, 10_000, 20_000_000_000_000_000);
    lemma_mul_mag2(q.w, c.x, 10_000, 20_000_000_000_000_000);
    lemma_mul_mag2(q.w, c.y, 10_000, 20_000_000_000_000_000);
    lemma_mul_mag2(q.w, c.z, 10_000, 20_000_000_000_000_000);
    lemma_tdiv_quot_bound(2 * (q.w * c.x + d.x), (SCALE as int) * (SCALE as int),
        2_000_000_000_000_000);
    lemma_tdiv_quot_bound(2 * (q.w * c.y + d.y), (SCALE as int) * (SCALE as int),
        2_000_000_000_000_000);
    lemma_tdiv_quot_bound(2 * (q.w * c.z + d.z), (SCALE as int) * (SCALE as int),
        2_000_000_000_000_000);
}

/// Componentwise magnitude of a Hamilton product: four products of bounded
/// values, rescaled by SCALE.
pub proof fn lemma_quat_mul_g_bound(a: Qg, b: Qg, ma: int, mb: int, m: int)
    requires
        0 <= ma,
        0 <= mb,
        0 <= m,
        qg_bounded(a, ma),
        qg_bounded(b, mb),
        4 * (ma * mb) <= m * (SCALE as int),
    ensures
        qg_bounded(quat_mul_g(a, b), m),
{
    lemma_mul_mag2(a.w, b.w, ma, mb);
    lemma_mul_mag2(a.w, b.x, ma, mb);
    lemma_mul_mag2(a.w, b.y, ma, mb);
    lemma_mul_mag2(a.w, b.z, ma, mb);
    lemma_mul_mag2(a.x, b.w, ma, mb);
    lemma_mul_mag2(a.x, b.x, ma, mb);
    lemma_mul_mag2(a.x, b.y, ma, mb);
    lemma_mul_mag2(a.x, b.z, ma, mb);
    lemma_mul_mag2(a.y, b.w, ma, mb);
    lemma_mul_mag2(a.y, b.x, ma, mb);
    lemma_mul_mag2(a.y, b.y, ma, mb);
    lemma_mul_mag2(a.y, b.z, ma, mb);
    lemma_mul_mag2(a.z, b.w, ma, mb);
    lemma_mul_mag2(a.z, b.x, ma, mb);
    lemma_mul_mag2(a.z, b.y, ma, mb);
    lemma_mul_mag2(a.z, b.z, ma, mb);
    lemma_tdiv_quot_bound(a.w * b.w - a.x * b.x - a.y * b.y - a.z * b.z, SCALE as int, m);
    lemma_tdiv_quot_bound(a.w * b.x + a.x * b.w + a.y * b.z - a.z * b.y, SCALE as int, m);
    lemma_tdiv_quot_bound(a.w * b.y - a.x * b.z + a.y * b.w + a.z * b.x, SCALE as int, m);
    lemma_tdiv_quot_bound(a.w * b.z + a.x * b.y - a.y * b.x + a.z * b.w, SCALE as int, m);
}

/// Hamilton product, executable.
pub fn quat_mul(a: &Quat, b: &Quat) -> (r: Quat)
    requires
        qg_bounded(a.g(), 1_000_000_000),
        qg_bounded(b.g(), 1_000_000_000),
    ensures
        r.g() == quat_mul_g(a.g(), b.g()),
{
    let aw = a.w as i128;
    let ax = a.x as i128;
    let ay = a.y as i128;
    let az = a.z as i128;
    let bw = b.w as i128;
    let bx = b.x as i128;
    let by = b.y as i128;
    let bz = b.z as i128;
    proof {
        lemma_mul_mag(aw as int, bw as int, 1_000_000_000);
        lemma_mul_mag(aw as int, bx as int, 1_000_000_000);
        lemma_mul_mag(aw as int, by as int, 1_000_000_000);
        lemma_mul_mag(aw as int, bz as int, 1_000_000_000);
        lemma_mul_mag(ax as int, bw as int, 1_000_000_000);
        lemma_mul_mag(ax as int, bx as int, 1_000_000_000);
        lemma_mul_mag(ax as int, by as int, 1_000_000_000);
        lemma_mul_mag(ax as int, bz as int, 1_000_000_000);
        lemma_mul_mag(ay as int, bw as int, 1_000_000_000);
        lemma_mul_mag(ay as int, bx as int, 1_000_000_000);
        lemma_mul_mag(ay as int, by as int, 1_000_000_000);
        lemma_mul_mag(ay as int, bz as int, 1_000_000_000);
        lemma_mul_mag(az as int, bw as int, 1_000_000_000);
        lemma_mul_mag(az as int, bx as int, 1_000_000_000);
        lemma_mul_mag(az as int, by as int, 1_000_000_000);
        lemma_mul_mag(az as int, bz as int, 1_000_000_000);
    }
    let nw: i128 = aw * bw - ax * bx - ay * by - az * bz;
    let nx: i128 = aw * bx + ax * bw + ay * bz - az * by;
    let ny: i128 = aw * by - ax * bz + ay * bw + az * bx;
    let nz: i128 = aw * bz + ax * by - ay * bx + az * bw;
    proof {
        lemma_tdiv_quot_bound(nw as int, SCALE as int, 4_000_000_000_000_000);
        lemma_tdiv_quot_bound(nx as int, SCALE as int, 4_000_000_000_000_000);
        lemma_tdiv_quot_bound(ny as int, SCALE as int, 4_000_000_000_000_000);
        lemma_tdiv_quot_bound(nz as int, SCALE as int, 4_000_000_000_000_000);
    }
    let rw = div_trunc(nw, SCALE as i128);
    let rx = div_trunc(nx, SCALE as i128);
    let ry = div_trunc(ny, SCALE as i128);
    let rz = div_trunc(nz, SCALE as i128);
    Quat { w: rw as i64, x: rx as i64, y: ry as i64, z: rz as i64 }
}

/// The rotation of a vector by an orientation, executable.
pub fn rotate(q: &Quat, v: &V3) -> (r: V3)
    requires
        qg_bounded(q.g(), 10_000),
        crate::vec3::v3g_bounded(v.g(), 1_000_000_000_000),
    ensures
        r.g() == rotate_g(q.g(), v.g()),
        crate::vec3::v3g_bounded(r.g(), 3_000_000_000_000_000),
{
    let qw = q.w as i128;
    let ux = q.x as i128;
    let uy = q.y as i128;
    let uz = q.z as i128;
    let vx = v.x as i128;
    let vy = v.y as i128;
    let vz = v.z as i128;
    proof {
        lemma_mul_mag2(uy as int, vz as int, 10_000, 1_000_000_000_000);
        lemma_mul_mag2(uz as int, vy as int, 10_000, 1_000_000_000_000);
        lemma_mul_mag2(uz as int, vx as int, 10_000, 1_000_000_000_000);
        lemma_mul_mag2(ux as int, vz as int, 10_000, 1_000_000_000_000);
        lemma_mul_mag2(ux as int, vy as int, 10_000, 1_000_000_000_000);
        lemma_mul_mag2(uy as int, vx as int, 10_000, 1_000_000_000_000);
    }
    let cx: i128 = uy * vz - uz * vy;
    let cy: i128 = uz * vx - ux * vz;
    let cz: i128 = ux * vy - uy * vx;
    proof {
        lemma_mul_mag2(uy as int, cz as int, 10_000, 20_000_000_000_000_000);
        lemma_mul_mag2(uz as int, cy as int, 10_000, 20_000_000_000_000_000);
        lemma_mul_mag2(uz as int, cx as int, 10_000, 20_000_000_000_000_000);
        lemma_mul_mag2(ux as int, cz as int, 10_000, 20_000_000_000_000_000);
        lemma_mul_mag2(ux as int, cy as int, 10_000, 20_000_000_000_000_000);
        lemma_mul_mag2(uy as int, cx as int, 10_000, 20_000_000_000_000_000);
        lemma_mul_mag2(qw as int, cx as int, 10_000, 20_000_000_000_000_000);
        lemma_mul_mag2(qw as int, cy as int, 10_000, 20_000_000_000_000_000);
        lemma_mul_mag2(qw as int, cz as int, 10_000, 20_000_000_000_000_000);
    }
    let dx: i128 = uy * cz - uz * cy;
    let dy: i128 = uz * cx - ux * cz;
    let dz: i128 = ux * cy - uy * cx;
    let tx: i128 = 2 * (qw * cx + dx);
    let ty: i128 = 2 * (qw * cy + dy);
    let tz: i128 = 2 * (qw * cz + dz);
    let den: i128 = 1_000_000;
    proof {
        assert(den as int == (SCALE as int) * (SCALE as int));
        lemma_tdiv_quot_bound(tx as int, den as int, 2_000_000_000_000_000);
        lemma_tdiv_quot_bound(ty as int, den as int, 2_000_000_000_000_000);
        lemma_tdiv_quot_bound(tz as int, den as int, 2_000_000_000_000_000);
    }
    let rx = div_trunc(tx, den);
    let ry = div_trunc(ty, den);
    let rz = div_trunc(tz, den);
    V3 { x: v.x + rx as i64, y: v.y + ry as i64, z: v.z + rz as i64 }
}

} // verus!
