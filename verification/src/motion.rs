//! The motion integrator: once per tick, after every velocity writer has
//! run, each present body's position advances by velocity * tick delta.
//! A pure explicit Euler step; positions are its only write.

use vstd::prelude::*;
use crate::scalar::{tdiv, div_trunc, lemma_tdiv_quot_bound, lemma_mul_mag2, SCALE};
use crate::vec3::V3;
use crate::world::{Body, World, MAX_DT, VEL_CAP};

verus! {

/// The position increment of one body over one tick: velocity * dt, with
/// one truncating rescale by SCALE per component.
pub open spec fn motion_dpos(b: Body, dt: int) -> (int, int, int) {
    (
        tdiv(b.vel.x * dt, SCALE as int),
        tdiv(b.vel.y * dt, SCALE as int),
        tdiv(b.vel.z * dt, SCALE as int),
    )
}

/// One body after one motion step: only the position moves.
pub open spec fn motion_step_body(ob: Option<Body>, dt: int) -> Option<Body> {
    match ob {
        None => None,
        Some(b) => Some(
            Body {
                pos: V3 {
                    x: (b.pos.x + motion_dpos(b, dt).0) as i64,
                    y: (b.pos.y + motion_dpos(b, dt).1) as i64,
                    z: (b.pos.z + motion_dpos(b, dt).2) as i64,
                },
                ..b
            },
        ),
    }
}

/// A zero tick delta moves nothing: the increment carries the factor dt = 0.
pub proof fn law_zero_dt_keeps_position(ob: Option<Body>)
    ensures
        motion_step_body(ob, 0) == ob,
{
    match ob {
        None => {},
        Some(b) => {
            assert(b.vel.x * 0 == 0) by (nonlinear_arith);
            assert(b.vel.y * 0 == 0) by (nonlinear_arith);
            assert(b.vel.z * 0 == 0) by (nonlinear_arith);
            vstd::arithmetic::div_mod::lemma_div_of0(SCALE as int);
        },
    }
}

/// One motion step over the whole registry.
pub fn motion_tick(w: &mut World, dt: i64)
    requires
        old(w).wf(),
        old(w).sim_bounded(),
        old(w).vel_bounded(VEL_CAP as int),
        0 <= dt <= MAX_DT,
    ensures
        final(w).wf(),
        final(w).bodies@.len() == old(w).bodies@.len(),
        final(w).affectors == old(w).affectors,
        forall|i: int|
            0 <= i < old(w).bodies@.len() ==> final(w).bodies@[i] == motion_step_body(
                old(w).bodies@[i], dt as int),
{
    let n = w.bodies.len();
    let mut i: usize = 0;
    while i < n
        invariant
            i <= n,
            n == w.bodies@.len(),
            w.bodies@.len() == old(w).bodies@.len(),
            w.affectors == old(w).affectors,
            w.wf(),
            0 <= dt <= MAX_DT,
            old(w).sim_bounded(),
            old(w).vel_bounded(VEL_CAP as int),
            forall|j: int|
                0 <= j < i ==> w.bodies@[j] == motion_step_body(old(w).bodies@[j], dt as int),
            forall|j: int| i <= j < n ==> w.bodies@[j] == old(w).bodies@[j],
        decreases n - i,
    {
        let bi = w.bodies[i];
        match bi {
            Some(b) => {
                proof {
                    assert(crate::world::body_vel_bounded(old(w).bodies@[i as int],
                        VEL_CAP as int));
                    assert(crate::world::body_sim_bounded(old(w).bodies@[i as int]));
                    lemma_mul_mag2(b.vel.x as int, dt as int, VEL_CAP as int, MAX_DT as int);
                    lemma_mul_mag2(b.vel.y as int, dt as int, VEL_CAP as int, MAX_DT as int);
                    lemma_mul_mag2(b.vel.z as int, dt as int, VEL_CAP as int, MAX_DT as int);
                    lemma_tdiv_quot_bound(b.vel.x as int * dt as int, SCALE as int,
                        4_000_000_000_000_000_000);
                    lemma_tdiv_quot_bound(b.vel.y as int * dt as int, SCALE as int,
                        4_000_000_000_000_000_000);
                    lemma_tdiv_quot_bound(b.vel.z as int * dt as int, SCALE as int,
                        4_000_000_000_000_000_000);
                }
                let px = div_trunc((b.vel.x as i128) * (dt as i128), SCALE as i128);
                let py = div_trunc((b.vel.y as i128) * (dt as i128), SCALE as i128);
                let pz = div_trunc((b.vel.z as i128) * (dt as i128), SCALE as i128);
                let nb = Body {
                    pos: V3 {
                        x: b.pos.x + px as i64,
                        y: b.pos.y + py as i64,
                        z: b.pos.z + pz as i64,
                    },
                    ..b
                };
                w.bodies.set(i, Some(nb));
            },
            None => {},
        }
        i = i + 1;
    }
}

} // verus!
