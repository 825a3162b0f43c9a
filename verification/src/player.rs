//! The player controller: six-way key state becomes an orientation-relative
//! velocity impulse on the designated player body, pointer-motion deltas
//! become incremental look rotations while the cursor is locked, and a
//! grab/release pair toggles the cursor lock.

use vstd::prelude::*;
use crate::scalar::{tdiv, div_trunc, lemma_tdiv_quot_bound, lemma_mul_mag2, SCALE};
use crate::vec3::{V3, V3g, zerog, norm_or_zero_g, norm_or_zero, v3g_bounded, len2g};
use crate::quat::{Quat, Qg, qg_bounded, rotate_g, rotate, quat_mul_g, quat_mul, identityg,
    lemma_rotate_zero, lemma_rotate_identity, lemma_quat_mul_g_bound};
use crate::trig::{look_quatg, look_quat};
use crate::world::{Body, World, MAX_DT, MAX_THRUST, VEL_CAP, QUAT_CAP};

verus! {

/// The per-tick snapshot of the six directional keys, level-triggered:
/// thrust follows the keys held this tick, not fresh presses.
#[derive(Clone, Copy, PartialEq, Eq, Structural, Debug)]
pub struct KeyState {
    pub forward: bool,
    pub back: bool,
    pub left: bool,
    pub right: bool,
    pub up: bool,
    pub down: bool,
}

impl KeyState {
    /// No key held.
    pub fn none() -> (k: KeyState)
        ensures
            k == (KeyState {
                forward: false,
                back: false,
                left: false,
                right: false,
                up: false,
                down: false,
            }),
    {
        KeyState { forward: false, back: false, left: false, right: false, up: false, down: false }
    }
}

/// One axis of the key state: exactly one key of the opposite pair held
/// gives a unit component, both or neither give zero.
pub open spec fn axis_of(neg: bool, pos: bool) -> int {
    if neg && !pos {
        -(SCALE as int)
    } else if pos && !neg {
        SCALE as int
    } else {
        0
    }
}

/// The local-space direction the held keys ask for: forward is -Z, right
/// is +X, up is +Y.
pub open spec fn key_dirg(k: KeyState) -> V3g {
    V3g {
        x: axis_of(k.left, k.right),
        y: axis_of(k.down, k.up),
        z: axis_of(k.forward, k.back),
    }
}

/// The world-space velocity impulse of one tick of thrust: the key
/// direction normalized (so diagonals are no faster), scaled by the tick
/// delta and the thrust constant, then rotated by the orientation.
pub open spec fn thrust_deltag(orient: Qg, k: KeyState, dt: int, thrust: int) -> V3g {
    let u = norm_or_zero_g(key_dirg(k));
    let su = V3g {
        x: tdiv(u.x * dt, SCALE as int),
        y: tdiv(u.y * dt, SCALE as int),
        z: tdiv(u.z * dt, SCALE as int),
    };
    let sv = V3g {
        x: tdiv(su.x * thrust, SCALE as int),
        y: tdiv(su.y * thrust, SCALE as int),
        z: tdiv(su.z * thrust, SCALE as int),
    };
    rotate_g(orient, sv)
}

/// The player body after one thrust step: only the velocity moves.
pub open spec fn thrust_step_body(ob: Option<Body>, k: KeyState, dt: int, thrust: int) -> Option<
    Body> {
    match ob {
        None => None,
        Some(b) => Some(
            Body {
                vel: V3 {
                    x: (b.vel.x + thrust_deltag(b.orient.g(), k, dt, thrust).x) as i64,
                    y: (b.vel.y + thrust_deltag(b.orient.g(), k, dt, thrust).y) as i64,
                    z: (b.vel.z + thrust_deltag(b.orient.g(), k, dt, thrust).z) as i64,
                },
                ..b
            },
        ),
    }
}

/// The thrust impulse is bounded under the controller's input bounds: the
/// normalized direction, the two rescalings and the rotation each keep
/// their factors within the sized ranges.
pub proof fn lemma_thrust_delta_bound(orient: Qg, k: KeyState, dt: int, thrust: int)
    requires
        qg_bounded(orient, QUAT_CAP as int),
        0 <= dt <= MAX_DT,
        0 <= thrust <= MAX_THRUST,
    ensures
        v3g_bounded(thrust_deltag(orient, k, dt, thrust), 3_000_000_000_000_000),
{
    let d = key_dirg(k);
    crate::vec3::lemma_norm_bound(d, SCALE as int);
    let u = norm_or_zero_g(d);
    lemma_mul_mag2(u.x, dt, 1_000_000, MAX_DT as int);
    lemma_mul_mag2(u.y, dt, 1_000_000, MAX_DT as int);
    lemma_mul_mag2(u.z, dt, 1_000_000, MAX_DT as int);
    lemma_tdiv_quot_bound(u.x * dt, SCALE as int, 1_000_000_000);
    lemma_tdiv_quot_bound(u.y * dt, SCALE as int, 1_000_000_000);
    lemma_tdiv_quot_bound(u.z * dt, SCALE as int, 1_000_000_000);
    let su = V3g {
        x: tdiv(u.x * dt, SCALE as int),
        y: tdiv(u.y * dt, SCALE as int),
        z: tdiv(u.z * dt, SCALE as int),
    };
    lemma_mul_mag2(su.x, thrust, 1_000_000_000, MAX_THRUST as int);
    lemma_mul_mag2(su.y, thrust, 1_000_000_000, MAX_THRUST as int);
    lemma_mul_mag2(su.z, thrust, 1_000_000_000, MAX_THRUST as int);
    lemma_tdiv_quot_bound(su.x * thrust, SCALE as int, 1_000_000_000_000);
    lemma_tdiv_quot_bound(su.y * thrust, SCALE as int, 1_000_000_000_000);
    lemma_tdiv_quot_bound(su.z * thrust, SCALE as int, 1_000_000_000_000);
    let sv = V3g {
        x: tdiv(su.x * thrust, SCALE as int),
        y: tdiv(su.y * thrust, SCALE as int),
        z: tdiv(su.z * thrust, SCALE as int),
    };
    crate::quat::lemma_rotate_g_bound(orient, sv);
}

/// With no key held the thrust impulse is exactly zero, whatever the
/// orientation, the tick delta and the thrust constant: the key direction
/// is the zero vector, which normalizes to zero and rotates to zero.
pub proof fn law_idle_keys_no_thrust(orient: Qg, dt: int, thrust: int)
    ensures
        thrust_deltag(
            orient,
            KeyState {
                forward: false,
                back: false,
                left: false,
                right: false,
                up: false,
                down: false,
            },
            dt,
            thrust,
        ) == zerog(),
{
    let k = KeyState {
        forward: false,
        back: false,
        left: false,
        right: false,
        up: false,
        down: false,
    };
    assert(key_dirg(k) == zerog());
    assert(len2g(zerog()) == 0);
    assert(norm_or_zero_g(key_dirg(k)) == zerog());
    assert(0 * dt == 0) by (nonlinear_arith);
    vstd::arithmetic::div_mod::lemma_div_of0(SCALE as int);
    assert(0 * thrust == 0) by (nonlinear_arith);
    lemma_rotate_zero(orient);
}

/// With the identity orientation and only "forward" held, the impulse
/// points along the local forward axis (-Z) exactly, with magnitude
/// dt * thrust rescaled once: the forward unit vector survives
/// normalization unchanged and the identity rotation is exact.
pub proof fn law_forward_thrust_is_forward(dt: int, thrust: int)
    requires
        0 <= dt,
        0 <= thrust,
    ensures
        thrust_deltag(
            identityg(),
            KeyState {
                forward: true,
                back: false,
                left: false,
                right: false,
                up: false,
                down: false,
            },
            dt,
            thrust,
        ) == (V3g { x: 0, y: 0, z: -tdiv(dt * thrust, SCALE as int) }),
{
    let k = KeyState {
        forward: true,
        back: false,
        left: false,
        right: false,
        up: false,
        down: false,
    };
    let d = key_dirg(k);
    assert(d == (V3g { x: 0, y: 0, z: -(SCALE as int) }));
    assert(len2g(d) == 1_000_000) by (nonlinear_arith)
        requires d.x == 0 && d.y == 0 && d.z == -1000;
    assert((1000 as int) * 1000 <= 1_000_000 < (1001 as int) * 1001) by (nonlinear_arith);
    crate::scalar::lemma_isqrt_unique(1_000_000, 1000);
    let u = norm_or_zero_g(d);
    vstd::arithmetic::div_mod::lemma_div_multiples_vanish(1000, 1000);
    assert(u.z == tdiv((SCALE as int) * -(SCALE as int), 1000));
    assert((SCALE as int) * -(SCALE as int) == -(1000 * (1000 as int))) by (nonlinear_arith);
    crate::scalar::lemma_tdiv_neg(1000 * (1000 as int), 1000);
    assert(u == (V3g { x: 0, y: 0, z: -(SCALE as int) }));
    vstd::arithmetic::div_mod::lemma_div_of0(SCALE as int);
    assert(0 * dt == 0) by (nonlinear_arith);
    assert(0 * thrust == 0) by (nonlinear_arith);
    // su.z = tdiv(-1000 * dt, 1000) == -dt
    assert(-(SCALE as int) * dt == -((SCALE as int) * dt)) by (nonlinear_arith);
    crate::scalar::lemma_tdiv_neg((SCALE as int) * dt, SCALE as int);
    vstd::arithmetic::div_mod::lemma_div_multiples_vanish(dt, SCALE as int);
    let su_z = tdiv(u.z * dt, SCALE as int);
    assert(su_z == -dt);
    // sv.z = tdiv(-dt * thrust, 1000) == -tdiv(dt * thrust, 1000)
    assert(-dt * thrust == -(dt * thrust)) by (nonlinear_arith);
    crate::scalar::lemma_tdiv_neg(dt * thrust, SCALE as int);
    lemma_rotate_identity(V3g { x: 0, y: 0, z: -tdiv(dt * thrust, SCALE as int) });
}

/// One thrust step on the designated player entity: every other entity is
/// untouched; an out-of-range or removed player id makes the step a no-op.
pub fn player_thrust(w: &mut World, player: usize, keys: &KeyState, dt: i64, thrust: i64)
    requires
        old(w).wf(),
        old(w).sim_bounded(),
        old(w).vel_bounded(VEL_CAP as int),
        0 <= dt <= MAX_DT,
        0 <= thrust <= MAX_THRUST,
        (player as int) < old(w).bodies@.len() && old(w).bodies@[player as int] is Some
            ==> qg_bounded(old(w).bodies@[player as int]->Some_0.orient.g(), QUAT_CAP as int),
    ensures
        final(w).wf(),
        final(w).sim_bounded(),
        final(w).bodies@.len() == old(w).bodies@.len(),
        final(w).affectors == old(w).affectors,
        forall|i: int|
            0 <= i < old(w).bodies@.len() && i != player ==> final(w).bodies@[i] == old(
            w).bodies@[i],
        (player as int) < old(w).bodies@.len() ==> final(w).bodies@[player as int]
            == thrust_step_body(old(w).bodies@[player as int], *keys, dt as int, thrust as int),
{
    if player >= w.bodies.len() {
        return ;
    }
    let bi = w.bodies[player];
    match bi {
        Some(b) => {
            let dir = key_dir(keys);
            let u = norm_or_zero(&dir);
            proof {
                crate::vec3::lemma_norm_bound(dir.g(), SCALE as int);
                lemma_mul_mag2(u.g().x, dt as int, 1_000_000, MAX_DT as int);
                lemma_mul_mag2(u.g().y, dt as int, 1_000_000, MAX_DT as int);
                lemma_mul_mag2(u.g().z, dt as int, 1_000_000, MAX_DT as int);
                lemma_tdiv_quot_bound(u.g().x * dt, SCALE as int, 1_000_000_000);
                lemma_tdiv_quot_bound(u.g().y * dt, SCALE as int, 1_000_000_000);
                lemma_tdiv_quot_bound(u.g().z * dt, SCALE as int, 1_000_000_000);
            }
            let sux = div_trunc((u.x as i128) * (dt as i128), SCALE as i128);
            let suy = div_trunc((u.y as i128) * (dt as i128), SCALE as i128);
            let suz = div_trunc((u.z as i128) * (dt as i128), SCALE as i128);
            proof {
                lemma_mul_mag2(sux as int, thrust as int, 1_000_000_000, MAX_THRUST as int);
                lemma_mul_mag2(suy as int, thrust as int, 1_000_000_000, MAX_THRUST as int);
                lemma_mul_mag2(suz as int, thrust as int, 1_000_000_000, MAX_THRUST as int);
                lemma_tdiv_quot_bound(sux as int * thrust, SCALE as int, 1_000_000_000_000);
                lemma_tdiv_quot_bound(suy as int * thrust, SCALE as int, 1_000_000_000_000);
                lemma_tdiv_quot_bound(suz as int * thrust, SCALE as int, 1_000_000_000_000);
            }
            let svx = div_trunc(sux * (thrust as i128), SCALE as i128);
            let svy = div_trunc(suy * (thrust as i128), SCALE as i128);
            let svz = div_trunc(suz * (thrust as i128), SCALE as i128);
            let sv = V3 { x: svx as i64, y: svy as i64, z: svz as i64 };
            let delta = rotate(&b.orient, &sv);
            let nb = Body {
                vel: V3 {
                    x: b.vel.x + delta.x,
                    y: b.vel.y + delta.y,
                    z: b.vel.z + delta.z,
                },
                ..b
            };
            w.bodies.set(player, Some(nb));
        },
        None => {},
    }
}

/// The key direction, executable.
fn key_dir(k: &KeyState) -> (r: V3)
    ensures
        r.g() == key_dirg(*k),
{
    let x: i64 = if k.left && !k.right {
        -SCALE
    } else if k.right && !k.left {
        SCALE
    } else {
        0
    };
    let y: i64 = if k.down && !k.up {
        -SCALE
    } else if k.up && !k.down {
        SCALE
    } else {
        0
    };
    let z: i64 = if k.forward && !k.back {
        -SCALE
    } else if k.back && !k.forward {
        SCALE
    } else {
        0
    };
    V3 { x, y, z }
}

/// The player body after one pointer-motion event while the cursor is
/// locked: only the orientation moves, composed on the right with the
/// incremental look rotation (a local-space rotation about the body's own
/// axes). Pitch comes from the vertical delta, yaw from the horizontal one,
/// each scaled by the signed sensitivity.
pub open spec fn look_step_body(ob: Option<Body>, dx: int, dy: int, sens: int) -> Option<Body> {
    match ob {
        None => None,
        Some(b) => Some(
            Body {
                orient: Quat {
                    w: quat_mul_g(b.orient.g(), look_quatg(tdiv(sens * dy, SCALE as int),
                        tdiv(sens * dx, SCALE as int))).w as i64,
                    x: quat_mul_g(b.orient.g(), look_quatg(tdiv(sens * dy, SCALE as int),
                        tdiv(sens * dx, SCALE as int))).x as i64,
                    y: quat_mul_g(b.orient.g(), look_quatg(tdiv(sens * dy, SCALE as int),
                        tdiv(sens * dx, SCALE as int))).y as i64,
                    z: quat_mul_g(b.orient.g(), look_quatg(tdiv(sens * dy, SCALE as int),
                        tdiv(sens * dx, SCALE as int))).z as i64,
                },
                ..b
            },
        ),
    }
}

/// One pointer-motion event applied to the designated player entity. While
/// the cursor is not locked the event changes nothing at all. The angles
/// the sensitivity yields must stay within the supported look range (about
/// a full turn per event).
pub fn player_look(w: &mut World, player: usize, dx: i64, dy: i64, sensitivity: i64, locked: bool)
    requires
        old(w).wf(),
        -6283 <= tdiv(sensitivity as int * dx as int, SCALE as int) <= 6283,
        -6283 <= tdiv(sensitivity as int * dy as int, SCALE as int) <= 6283,
        -1_000_000 <= sensitivity <= 1_000_000,
        -1_000_000_000 <= dx <= 1_000_000_000,
        -1_000_000_000 <= dy <= 1_000_000_000,
        (player as int) < old(w).bodies@.len() && old(w).bodies@[player as int] is Some
            ==> qg_bounded(old(w).bodies@[player as int]->Some_0.orient.g(), QUAT_CAP as int),
    ensures
        final(w).wf(),
        final(w).bodies@.len() == old(w).bodies@.len(),
        final(w).affectors == old(w).affectors,
        !locked ==> final(w).bodies@ == old(w).bodies@,
        forall|i: int|
            0 <= i < old(w).bodies@.len() && i != player ==> final(w).bodies@[i] == old(
            w).bodies@[i],
        locked && (player as int) < old(w).bodies@.len() ==> final(w).bodies@[player as int]
            == look_step_body(old(w).bodies@[player as int], dx as int, dy as int,
            sensitivity as int),
        old(w).sim_bounded() ==> final(w).sim_bounded(),
{
    if !locked {
        return ;
    }
    if player >= w.bodies.len() {
        return ;
    }
    let bi = w.bodies[player];
    match bi {
        Some(b) => {
            proof {
                lemma_mul_mag2(sensitivity as int, dx as int, 1_000_000, 1_000_000_000);
                lemma_mul_mag2(sensitivity as int, dy as int, 1_000_000, 1_000_000_000);
            }
            let pitch = div_trunc((sensitivity as i128) * (dy as i128), SCALE as i128) as i64;
            let yaw = div_trunc((sensitivity as i128) * (dx as i128), SCALE as i128) as i64;
            let dq = look_quat(pitch, yaw);
            let nq = quat_mul(&b.orient, &dq);
            proof {
                lemma_quat_mul_g_bound(b.orient.g(), dq.g(), QUAT_CAP as int, 4_000, 160_000);
            }
            let nb = Body { orient: nq, ..b };
            w.bodies.set(player, Some(nb));
        },
        None => {},
    }
}

/// Cursor lock state: while unlocked, pointer motion must not steer.
#[derive(Clone, Copy, PartialEq, Eq, Structural, Debug)]
pub struct CursorState {
    pub locked: bool,
}

/// The lock state after one tick of grab/release edges: a release edge
/// unlocks (and wins over a simultaneous grab, as the release handler runs
/// last), a grab edge locks, otherwise the state is kept. Edges are
/// "just pressed" transitions, so holding a button does not re-trigger.
pub open spec fn cursor_next(s: CursorState, grab: bool, release: bool) -> CursorState {
    CursorState {
        locked: if release {
            false
        } else if grab {
            true
        } else {
            s.locked
        },
    }
}

/// Apply one tick of grab/release edges to the cursor lock.
pub fn cursor_update(s: CursorState, grab_just_pressed: bool, release_just_pressed: bool) -> (r:
    CursorState)
    ensures
        r == cursor_next(s, grab_just_pressed, release_just_pressed),
{
    let mut locked = s.locked;
    if grab_just_pressed {
        locked = true;
    }
    if release_just_pressed {
        locked = false;
    }
    CursorState { locked }
}

} // verus!
