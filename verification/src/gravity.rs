//! The gravity integrator: once per tick, for every entity with a body, sum
//! the force its affectors exert on it and add the scaled force to its
//! velocity. Pairs at zero distance contribute zero force, and dangling
//! affector entries are skipped; neither ever faults the tick.

use vstd::prelude::*;
use crate::scalar::{tdiv, isqrt_spec, isqrt, div_trunc, lemma_tdiv_quot_bound, lemma_mul_mag,
    lemma_mul_mag2, SCALE};
use crate::vec3::{V3, V3g, subg, addg, negg, zerog, len2g, v3g_bounded, lemma_len2_pos};
use crate::world::{Body, World, MAX_MASS, MAX_POS, MAX_AFFECTORS, MAX_DT, MAX_DAMPING, VEL_CAP,
    DVEL_CAP, body_mass_ok, body_sim_bounded};

verus! {

/// Magnitude bound of one pair's force contribution under the simulation
/// bounds: SCALE * MAX_MASS * MAX_MASS * (2 * MAX_POS).
pub const CONTRIB_CAP: i128 = 2_000_000_000_000_000_000_000_000;

/// The force the body at pa with mass ma exerts on the body at ps with mass
/// ms: SCALE * ms * ma * d / (|d|^2 * |d|) per component, with d = pa - ps,
/// |d|^2 the exact squared distance and |d| its floor square root; a pair at
/// zero distance contributes exactly zero instead of dividing by zero.
pub open spec fn contribg(ms: int, ps: V3g, ma: int, pa: V3g) -> V3g {
    let d = subg(pa, ps);
    let n2 = len2g(d);
    if n2 == 0 {
        zerog()
    } else {
        let s = isqrt_spec(n2);
        V3g {
            x: tdiv((SCALE as int) * ms * ma * d.x, n2 * s),
            y: tdiv((SCALE as int) * ms * ma * d.y, n2 * s),
            z: tdiv((SCALE as int) * ms * ma * d.z, n2 * s),
        }
    }
}

/// The contribution of affector id to the force on `me`: zero when id is out
/// of range or its body was removed (a dangling reference is skipped).
pub open spec fn contrib_of(bodies: Seq<Option<Body>>, me: Body, id: usize) -> V3g {
    if (id as int) < bodies.len() {
        match bodies[id as int] {
            Some(a) => contribg(me.mass as int, me.pos.g(), a.mass as int, a.pos.g()),
            None => zerog(),
        }
    } else {
        zerog()
    }
}

/// The force on `me` from the first k entries of its affector list.
pub open spec fn net_force_upto(bodies: Seq<Option<Body>>, me: Body, affs: Seq<usize>,
    k: int) -> V3g
    decreases k,
{
    if k <= 0 {
        zerog()
    } else {
        addg(net_force_upto(bodies, me, affs, k - 1), contrib_of(bodies, me, affs[k - 1]))
    }
}

/// The net force on `me` from its whole affector list.
pub open spec fn net_forceg(bodies: Seq<Option<Body>>, me: Body, affs: Seq<usize>) -> V3g {
    net_force_upto(bodies, me, affs, affs.len() as int)
}

/// The velocity increment a net force f yields over one tick:
/// damping * f * dt / (SCALE * mass) per component.
pub open spec fn dvelg(f: V3g, mass: int, dt: int, damping: int) -> V3g {
    V3g {
        x: tdiv(damping * f.x * dt, (SCALE as int) * mass),
        y: tdiv(damping * f.y * dt, (SCALE as int) * mass),
        z: tdiv(damping * f.z * dt, (SCALE as int) * mass),
    }
}

/// The velocity increment the gravity integrator gives entity i of w.
pub open spec fn gravity_dvel(w: World, i: int, dt: int, damping: int) -> V3g {
    match w.bodies@[i] {
        Some(b) => dvelg(net_forceg(w.bodies@, b, w.affectors@[i]@), b.mass as int, dt, damping),
        None => zerog(),
    }
}

/// Entity i of w after one gravity step: only the velocity moves.
pub open spec fn gravity_step_body(w: World, i: int, dt: int, damping: int) -> Option<Body> {
    match w.bodies@[i] {
        None => None,
        Some(b) => Some(
            Body {
                vel: V3 {
                    x: (b.vel.x + gravity_dvel(w, i, dt, damping).x) as i64,
                    y: (b.vel.y + gravity_dvel(w, i, dt, damping).y) as i64,
                    z: (b.vel.z + gravity_dvel(w, i, dt, damping).z) as i64,
                },
                ..b
            },
        ),
    }
}

/// Machine limit on one tick: every entity's velocity increment fits the
/// velocity field. It always holds when masses, distances and the tick
/// delta are in everyday ranges.
pub open spec fn gravity_fits(w: World, dt: int, damping: int) -> bool {
    forall|i: int|
        0 <= i < w.bodies@.len() ==> v3g_bounded(
            #[trigger] gravity_dvel(w, i, dt, damping),
            DVEL_CAP as int,
        )
}

/// Newton's third law, exactly: the force A receives from B is the exact
/// negation of the force B receives from A, for every pair of masses and
/// positions — the displacement flips sign, the distance does not, and a
/// truncating quotient of a negated dividend is the negated quotient.
pub proof fn law_forces_are_symmetric(ms: int, ps: V3g, ma: int, pa: V3g)
    ensures
        contribg(ms, ps, ma, pa) == negg(contribg(ma, pa, ms, ps)),
{
    let d = subg(pa, ps);
    let e = subg(ps, pa);
    assert(e.x == -d.x && e.y == -d.y && e.z == -d.z);
    assert(len2g(e) == len2g(d)) by (nonlinear_arith)
        requires e.x == -d.x && e.y == -d.y && e.z == -d.z;
    if len2g(d) == 0 {
    } else {
        let n2 = len2g(d);
        let s = isqrt_spec(n2);
        lemma_len2_pos(d);
        assert(n2 * s >= 1) by (nonlinear_arith)
            requires n2 >= 1 && s >= 1;
        assert((SCALE as int) * ms * ma * e.x == -((SCALE as int) * ms * ma * d.x))
            by (nonlinear_arith)
            requires e.x == -d.x;
        assert((SCALE as int) * ms * ma * e.y == -((SCALE as int) * ms * ma * d.y))
            by (nonlinear_arith)
            requires e.y == -d.y;
        assert((SCALE as int) * ms * ma * e.z == -((SCALE as int) * ms * ma * d.z))
            by (nonlinear_arith)
            requires e.z == -d.z;
        assert((SCALE as int) * ma * ms == (SCALE as int) * ms * ma) by (nonlinear_arith);
        assert((SCALE as int) * ma * ms * e.x == (SCALE as int) * ms * ma * e.x)
            by (nonlinear_arith)
            requires (SCALE as int) * ma * ms == (SCALE as int) * ms * ma;
        assert((SCALE as int) * ma * ms * e.y == (SCALE as int) * ms * ma * e.y)
            by (nonlinear_arith)
            requires (SCALE as int) * ma * ms == (SCALE as int) * ms * ma;
        assert((SCALE as int) * ma * ms * e.z == (SCALE as int) * ms * ma * e.z)
            by (nonlinear_arith)
            requires (SCALE as int) * ma * ms == (SCALE as int) * ms * ma;
        crate::scalar::lemma_tdiv_neg((SCALE as int) * ms * ma * d.x, n2 * s);
        crate::scalar::lemma_tdiv_neg((SCALE as int) * ms * ma * d.y, n2 * s);
        crate::scalar::lemma_tdiv_neg((SCALE as int) * ms * ma * d.z, n2 * s);
    }
}

/// A pair at coincident positions contributes exactly zero force; no
/// division by zero distance is ever attempted.
pub proof fn law_coincident_pair_is_ignored(ms: int, ma: int, p: V3g)
    ensures
        contribg(ms, p, ma, p) == zerog(),
{
    let d = subg(p, p);
    assert(len2g(d) == 0) by (nonlinear_arith)
        requires d.x == 0 && d.y == 0 && d.z == 0;
}

/// An entity with no affectors receives no force and keeps its velocity.
/// The world is arbitrary here, so this holds at every tick of any run,
/// however the rest of the world moves between ticks.
pub proof fn law_no_affectors_no_force(w: World, i: int, dt: int, damping: int)
    requires
        w.wf(),
        0 <= i < w.bodies@.len(),
        w.bodies@[i] is Some,
        w.affectors@[i]@.len() == 0,
    ensures
        gravity_dvel(w, i, dt, damping) == zerog(),
        gravity_step_body(w, i, dt, damping) == w.bodies@[i],
{
    let b = w.bodies@[i]->Some_0;
    assert(body_mass_ok(w.bodies@[i]));
    assert(net_forceg(w.bodies@, b, w.affectors@[i]@) == zerog());
    lemma_dvel_of_zero_force(b.mass as int, dt, damping);
}

/// A zero tick delta leaves every velocity untouched: the increment's
/// dividend carries the factor dt = 0.
pub proof fn law_zero_dt_keeps_velocity(w: World, i: int, damping: int)
    requires
        w.wf(),
        0 <= i < w.bodies@.len(),
    ensures
        gravity_dvel(w, i, 0, damping) == zerog(),
        gravity_step_body(w, i, 0, damping) == w.bodies@[i],
{
    assert(body_mass_ok(w.bodies@[i]));
    match w.bodies@[i] {
        None => {},
        Some(b) => {
            let f = net_forceg(w.bodies@, b, w.affectors@[i]@);
            assert(damping * f.x * 0 == 0) by (nonlinear_arith);
            assert(damping * f.y * 0 == 0) by (nonlinear_arith);
            assert(damping * f.z * 0 == 0) by (nonlinear_arith);
            assert((SCALE as int) * (b.mass as int) >= 1) by (nonlinear_arith)
                requires b.mass as int >= 1;
            vstd::arithmetic::div_mod::lemma_div_of0((SCALE as int) * (b.mass as int));
        },
    }
}

/// The zero force vector yields a zero velocity increment.
proof fn lemma_dvel_of_zero_force(mass: int, dt: int, damping: int)
    requires
        mass >= 1,
    ensures
        dvelg(zerog(), mass, dt, damping) == zerog(),
{
    assert(damping * 0 * dt == 0) by (nonlinear_arith);
    assert((SCALE as int) * mass >= 1) by (nonlinear_arith)
        requires mass >= 1;
    vstd::arithmetic::div_mod::lemma_div_of0((SCALE as int) * mass);
}

/// Force evaluation reads only masses and positions: two body sequences
/// that agree on presence, mass and position, and two receivers with the
/// same mass and position, yield the same net force.
pub proof fn lemma_force_reads_only_mass_pos(b1: Seq<Option<Body>>, b2: Seq<Option<Body>>,
    me1: Body, me2: Body, affs: Seq<usize>, k: int)
    requires
        b1.len() == b2.len(),
        forall|j: int|
            0 <= j < b1.len() ==> same_mass_pos(#[trigger] b1[j], b2[j]),
        me1.mass == me2.mass,
        me1.pos == me2.pos,
        0 <= k <= affs.len(),
    ensures
        net_force_upto(b1, me1, affs, k) == net_force_upto(b2, me2, affs, k),
    decreases k,
{
    if k > 0 {
        lemma_force_reads_only_mass_pos(b1, b2, me1, me2, affs, k - 1);
        let id = affs[k - 1];
        if (id as int) < b1.len() {
            assert(same_mass_pos(b1[id as int], b2[id as int]));
        }
    }
}

/// The whole velocity increment reads only masses, positions and affector
/// lists: two worlds that agree on those give every entity the same one.
pub proof fn lemma_dvel_reads_only_mass_pos(w1: World, w2: World, i: int, dt: int, damping: int)
    requires
        w1.bodies@.len() == w2.bodies@.len(),
        w1.affectors@ == w2.affectors@,
        0 <= i < w1.bodies@.len(),
        forall|j: int|
            0 <= j < w1.bodies@.len() ==> same_mass_pos(#[trigger] w1.bodies@[j], w2.bodies@[j]),
    ensures
        gravity_dvel(w1, i, dt, damping) == gravity_dvel(w2, i, dt, damping),
{
    assert(same_mass_pos(w1.bodies@[i], w2.bodies@[i]));
    match (w1.bodies@[i], w2.bodies@[i]) {
        (Some(b1), Some(b2)) => {
            lemma_force_reads_only_mass_pos(w1.bodies@, w2.bodies@, b1, b2, w1.affectors@[i]@,
                w1.affectors@[i]@.len() as int);
        },
        _ => {},
    }
}

/// Agreement on presence, mass and position (velocity and orientation free).
pub open spec fn same_mass_pos(a: Option<Body>, b: Option<Body>) -> bool {
    match (a, b) {
        (Some(x), Some(y)) => x.mass == y.mass && x.pos == y.pos,
        (None, None) => true,
        _ => false,
    }
}

/// One pair's force contribution, executable.
fn contrib_exec(me: &Body, other: &Body) -> (r: (i128, i128, i128))
    requires
        1 <= me.mass <= MAX_MASS,
        1 <= other.mass <= MAX_MASS,
        v3g_bounded(me.pos.g(), MAX_POS as int),
        v3g_bounded(other.pos.g(), MAX_POS as int),
    ensures
        r.0 == contribg(me.mass as int, me.pos.g(), other.mass as int, other.pos.g()).x,
        r.1 == contribg(me.mass as int, me.pos.g(), other.mass as int, other.pos.g()).y,
        r.2 == contribg(me.mass as int, me.pos.g(), other.mass as int, other.pos.g()).z,
        -CONTRIB_CAP <= r.0 <= CONTRIB_CAP,
        -CONTRIB_CAP <= r.1 <= CONTRIB_CAP,
        -CONTRIB_CAP <= r.2 <= CONTRIB_CAP,
{
    let ghost d = subg(other.pos.g(), me.pos.g());
    let dx: i128 = (other.pos.x as i128) - (me.pos.x as i128);
    let dy: i128 = (other.pos.y as i128) - (me.pos.y as i128);
    let dz: i128 = (other.pos.z as i128) - (me.pos.z as i128);
    proof {
        lemma_mul_mag(dx as int, dx as int, 2_000_000_000);
        lemma_mul_mag(dy as int, dy as int, 2_000_000_000);
        lemma_mul_mag(dz as int, dz as int, 2_000_000_000);
    }
    let n2: i128 = dx * dx + dy * dy + dz * dz;
    if n2 == 0 {
        proof {
            assert(len2g(d) == 0);
        }
        (0, 0, 0)
    } else {
        proof {
            lemma_len2_pos(d);
        }
        let su: u128 = isqrt(n2 as u128);
        proof {
            assert(su as int <= 4_000_000_000) by (nonlinear_arith)
                requires
                    (su as int) * (su as int) <= 12_000_000_000_000_000_000,
                    su as int >= 0;
        }
        let s: i128 = su as i128;
        proof {
            lemma_mul_mag2(n2 as int, s as int, 12_000_000_000_000_000_000, 4_000_000_000);
            assert((n2 as int) * (s as int) >= 1) by (nonlinear_arith)
                requires n2 as int >= 1 && s as int >= 1;
        }
        let den: i128 = n2 * s;
        proof {
            lemma_mul_mag2(SCALE as int, me.mass as int, 1_000, MAX_MASS as int);
        }
        let mm: i128 = (SCALE as i128) * (me.mass as i128);
        proof {
            lemma_mul_mag2(mm as int, other.mass as int, 1_000_000_000, 1_000_000);
        }
        let mmm: i128 = mm * (other.mass as i128);
        proof {
            lemma_mul_mag2(mmm as int, dx as int, 1_000_000_000_000_000, 2_000_000_000);
            lemma_mul_mag2(mmm as int, dy as int, 1_000_000_000_000_000, 2_000_000_000);
            lemma_mul_mag2(mmm as int, dz as int, 1_000_000_000_000_000, 2_000_000_000);
            lemma_contrib_div_bound(mmm as int * dx as int, den as int);
            lemma_contrib_div_bound(mmm as int * dy as int, den as int);
            lemma_contrib_div_bound(mmm as int * dz as int, den as int);
        }
        let rx = div_trunc(mmm * dx, den);
        let ry = div_trunc(mmm * dy, den);
        let rz = div_trunc(mmm * dz, den);
        (rx, ry, rz)
    }
}

/// Quotient bound for one contribution term.
proof fn lemma_contrib_div_bound(num: int, den: int)
    requires
        den >= 1,
        -CONTRIB_CAP <= num <= CONTRIB_CAP,
    ensures
        -CONTRIB_CAP <= tdiv(num, den) <= CONTRIB_CAP,
{
    assert((CONTRIB_CAP as int) * den >= CONTRIB_CAP as int) by (nonlinear_arith)
        requires den >= 1;
    lemma_tdiv_quot_bound(num, den, CONTRIB_CAP as int);
}

/// The net force on `me` from its affector list, executable. Dangling
/// entries (out of range or removed) are skipped.
fn net_force_exec(bodies: &Vec<Option<Body>>, affs: &Vec<usize>, me: &Body) -> (r: (i128, i128,
    i128))
    requires
        forall|j: int| 0 <= j < bodies@.len() ==> body_mass_ok(#[trigger] bodies@[j]),
        forall|j: int| 0 <= j < bodies@.len() ==> body_sim_bounded(#[trigger] bodies@[j]),
        1 <= me.mass <= MAX_MASS,
        v3g_bounded(me.pos.g(), MAX_POS as int),
        affs@.len() <= MAX_AFFECTORS,
    ensures
        r.0 == net_forceg(bodies@, *me, affs@).x,
        r.1 == net_forceg(bodies@, *me, affs@).y,
        r.2 == net_forceg(bodies@, *me, affs@).z,
        -2_000_000_000_000_000_000_000_000_000 <= r.0 <= 2_000_000_000_000_000_000_000_000_000,
        -2_000_000_000_000_000_000_000_000_000 <= r.1 <= 2_000_000_000_000_000_000_000_000_000,
        -2_000_000_000_000_000_000_000_000_000 <= r.2 <= 2_000_000_000_000_000_000_000_000_000,
{
    let mut fx: i128 = 0;
    let mut fy: i128 = 0;
    let mut fz: i128 = 0;
    let mut k: usize = 0;
    let n = affs.len();
    while k < n
        invariant
            k <= n,
            n == affs@.len(),
            affs@.len() <= MAX_AFFECTORS,
            forall|j: int| 0 <= j < bodies@.len() ==> body_mass_ok(#[trigger] bodies@[j]),
            forall|j: int| 0 <= j < bodies@.len() ==> body_sim_bounded(#[trigger] bodies@[j]),
            1 <= me.mass <= MAX_MASS,
            v3g_bounded(me.pos.g(), MAX_POS as int),
            fx == net_force_upto(bodies@, *me, affs@, k as int).x,
            fy == net_force_upto(bodies@, *me, affs@, k as int).y,
            fz == net_force_upto(bodies@, *me, affs@, k as int).z,
            -(k as i128) * CONTRIB_CAP <= fx <= (k as i128) * CONTRIB_CAP,
            -(k as i128) * CONTRIB_CAP <= fy <= (k as i128) * CONTRIB_CAP,
            -(k as i128) * CONTRIB_CAP <= fz <= (k as i128) * CONTRIB_CAP,
        decreases n - k,
    {
        let id = affs[k];
        if id < bodies.len() {
            match &bodies[id] {
                Some(other) => {
                    let (cx, cy, cz) = contrib_exec(me, other);
                    fx = fx + cx;
                    fy = fy + cy;
                    fz = fz + cz;
                },
                None => {
                    proof {
                        assert(contrib_of(bodies@, *me, affs@[k as int]) == zerog());
                    }
                },
            }
        } else {
            proof {
                assert(contrib_of(bodies@, *me, affs@[k as int]) == zerog());
            }
        }
        k = k + 1;
    }
    (fx, fy, fz)
}

/// One gravity step over the whole registry: for every present body, add
/// the net force of its affector list, scaled by damping and the tick delta
/// and divided by its own mass, to its velocity. Positions, orientations,
/// masses and the affector graph are read but never written, so the forces
/// every entity receives are computed from the same start-of-tick snapshot.
pub fn gravity_tick(w: &mut World, dt: i64, damping: i64)
    requires
        old(w).wf(),
        old(w).sim_bounded(),
        old(w).vel_bounded(VEL_CAP as int),
        0 <= dt <= MAX_DT,
        0 <= damping <= MAX_DAMPING,
        gravity_fits(*old(w), dt as int, damping as int),
    ensures
        final(w).wf(),
        final(w).sim_bounded(),
        final(w).bodies@.len() == old(w).bodies@.len(),
        final(w).affectors == old(w).affectors,
        forall|i: int|
            0 <= i < old(w).bodies@.len() ==> final(w).bodies@[i] == gravity_step_body(
                *old(w), i, dt as int, damping as int),
{
    let n = w.bodies.len();
    let mut i: usize = 0;
    while i < n
        invariant
            i <= n,
            n == w.bodies@.len(),
            w.bodies@.len() == old(w).bodies@.len(),
            w.affectors == old(w).affectors,
            w.wf(),
            w.sim_bounded(),
            0 <= dt <= MAX_DT,
            0 <= damping <= MAX_DAMPING,
            gravity_fits(*old(w), dt as int, damping as int),
            old(w).vel_bounded(VEL_CAP as int),
            forall|j: int|
                0 <= j < i ==> w.bodies@[j] == gravity_step_body(*old(w), j, dt as int,
                damping as int),
            forall|j: int| i <= j < n ==> w.bodies@[j] == old(w).bodies@[j],
            forall|j: int|
                0 <= j < w.bodies@.len() ==> same_mass_pos(#[trigger] w.bodies@[j],
                old(w).bodies@[j]),
        decreases n - i,
    {
        let bi = w.bodies[i];
        match bi {
            Some(b) => {
                let affs_i = &w.affectors[i];
                let (fx, fy, fz) = net_force_exec(&w.bodies, affs_i, &b);
                proof {
                    lemma_force_reads_only_mass_pos(w.bodies@, old(w).bodies@, b, b,
                        w.affectors@[i as int]@, w.affectors@[i as int]@.len() as int);
                    assert(gravity_fits(*old(w), dt as int, damping as int));
                    assert(v3g_bounded(gravity_dvel(*old(w), i as int, dt as int, damping as int),
                        DVEL_CAP as int));
                    lemma_dvel_num_bound(fx as int, dt as int, damping as int);
                    lemma_dvel_num_bound(fy as int, dt as int, damping as int);
                    lemma_dvel_num_bound(fz as int, dt as int, damping as int);
                }
                proof {
                    lemma_mul_mag2(SCALE as int, b.mass as int, 1_000, MAX_MASS as int);
                }
                let den: i128 = (SCALE as i128) * (b.mass as i128);
                let dvx = div_trunc((damping as i128) * fx * (dt as i128), den);
                let dvy = div_trunc((damping as i128) * fy * (dt as i128), den);
                let dvz = div_trunc((damping as i128) * fz * (dt as i128), den);
                proof {
                    assert(dvx == gravity_dvel(*old(w), i as int, dt as int, damping as int).x);
                    assert(dvy == gravity_dvel(*old(w), i as int, dt as int, damping as int).y);
                    assert(dvz == gravity_dvel(*old(w), i as int, dt as int, damping as int).z);
                }
                let nb = Body {
                    vel: V3 {
                        x: b.vel.x + dvx as i64,
                        y: b.vel.y + dvy as i64,
                        z: b.vel.z + dvz as i64,
                    },
                    ..b
                };
                w.bodies.set(i, Some(nb));
            },
            None => {},
        }
        i = i + 1;
    }
}

/// The numerator of a velocity increment stays within i128 under the tick
/// bounds: |damping * f * dt| <= MAX_DAMPING * (MAX_AFFECTORS * CONTRIB_CAP)
/// * MAX_DT.
proof fn lemma_dvel_num_bound(f: int, dt: int, damping: int)
    requires
        0 <= dt <= MAX_DT,
        0 <= damping <= MAX_DAMPING,
        -2_000_000_000_000_000_000_000_000_000 <= f <= 2_000_000_000_000_000_000_000_000_000,
    ensures
        -20_000_000_000_000_000_000_000_000_000_000 <= damping * f
            <= 20_000_000_000_000_000_000_000_000_000_000,
        -20_000_000_000_000_000_000_000_000_000_000_000_000 <= damping * f * dt
            <= 20_000_000_000_000_000_000_000_000_000_000_000_000,
{
    lemma_mul_mag2(damping, f, MAX_DAMPING as int, 2_000_000_000_000_000_000_000_000_000);
    lemma_mul_mag2(damping * f, dt, 20_000_000_000_000_000_000_000_000_000_000, MAX_DT as int);
}

} // verus!
