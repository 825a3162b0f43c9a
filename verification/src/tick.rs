//! One whole simulation tick in the required order: cursor-lock edges,
//! then the player controller (look, then thrust), then the gravity
//! integrator, then — after every velocity writer has run — the motion
//! integrator. The contract states the end state of every entity over the
//! start-of-tick world alone.

use vstd::prelude::*;
use crate::scalar::{tdiv, SCALE};
use crate::vec3::{V3, v3g_bounded};
use crate::quat::{Quat, Qg, qg_bounded, quat_mul_g};
use crate::trig::look_quatg;
use crate::world::{Body, World, MAX_DT, MAX_DAMPING, MAX_THRUST, VEL_CAP, QUAT_CAP, DVEL_CAP,
    body_vel_bounded};
use crate::player::{KeyState, CursorState, cursor_next, cursor_update, player_look,
    player_thrust, thrust_deltag, look_step_body, lemma_thrust_delta_bound};
use crate::gravity::{gravity_tick, gravity_dvel, gravity_fits, gravity_step_body, same_mass_pos,
    lemma_dvel_reads_only_mass_pos};
use crate::motion::{motion_tick, motion_step_body};

verus! {

/// Velocity magnitude a world may carry into a whole tick: thrust and
/// gravity each add a bounded increment and the sum must stay within what
/// the integrators admit.
pub const TICK_VEL_CAP: i64 = 900_000_000_000_000;

/// The per-tick input snapshot: level-triggered directional keys,
/// edge-triggered grab/release, and the pointer-motion deltas accumulated
/// since the previous tick, drained fully and in order.
pub struct TickInput {
    pub keys: KeyState,
    pub grab: bool,
    pub release: bool,
    pub pointer: Vec<(i64, i64)>,
}

/// The tunable constants of the simulation: the gravity damping factor,
/// the thrust speed constant and the signed look sensitivity.
pub struct TickConfig {
    pub damping: i64,
    pub thrust: i64,
    pub look_sensitivity: i64,
}

/// The orientation after the first k pointer events, composed left to
/// right with the incremental look rotation of each event (pitch from the
/// vertical delta, yaw from the horizontal one).
pub open spec fn look_foldg(q: Qg, deltas: Seq<(i64, i64)>, sens: int, k: int) -> Qg
    decreases k,
{
    if k <= 0 {
        q
    } else {
        quat_mul_g(
            look_foldg(q, deltas, sens, k - 1),
            look_quatg(
                tdiv(sens * (deltas[k - 1].1 as int), SCALE as int),
                tdiv(sens * (deltas[k - 1].0 as int), SCALE as int),
            ),
        )
    }
}

/// A quaternion of unbounded integers stored into fixed-point fields.
pub open spec fn quat_of_g(q: Qg) -> Quat {
    Quat { w: q.w as i64, x: q.x as i64, y: q.y as i64, z: q.z as i64 }
}

/// One pointer event within the supported ranges: deltas within a million
/// units and the angles its sensitivity yields within the look range.
pub open spec fn pointer_event_ok(e: (i64, i64), sens: int) -> bool {
    &&& -1_000_000_000 <= e.0 <= 1_000_000_000
    &&& -1_000_000_000 <= e.1 <= 1_000_000_000
    &&& -6283 <= tdiv(sens * (e.0 as int), SCALE as int) <= 6283
    &&& -6283 <= tdiv(sens * (e.1 as int), SCALE as int) <= 6283
}

/// Entity i of w after one whole tick. Reading top to bottom: the player's
/// orientation takes the fold of the pointer events while the cursor ends
/// the tick locked; the player's velocity gains the thrust impulse computed
/// against that new orientation; every present body's velocity then gains
/// its gravity increment, evaluated on start-of-tick masses and positions;
/// and every present body's position finally advances by the post-update
/// velocity.
pub open spec fn tick_step_body(w: World, i: int, player: int, keys: KeyState, locked: bool,
    deltas: Seq<(i64, i64)>, sens: int, dt: int, damping: int, thrust: int) -> Option<Body> {
    match w.bodies@[i] {
        None => None,
        Some(b) => {
            let orient1 = if i == player && locked {
                quat_of_g(look_foldg(b.orient.g(), deltas, sens, deltas.len() as int))
            } else {
                b.orient
            };
            let v1 = if i == player {
                V3 {
                    x: (b.vel.x + thrust_deltag(orient1.g(), keys, dt, thrust).x) as i64,
                    y: (b.vel.y + thrust_deltag(orient1.g(), keys, dt, thrust).y) as i64,
                    z: (b.vel.z + thrust_deltag(orient1.g(), keys, dt, thrust).z) as i64,
                }
            } else {
                b.vel
            };
            let gd = gravity_dvel(w, i, dt, damping);
            let v2 = V3 { x: (v1.x + gd.x) as i64, y: (v1.y + gd.y) as i64, z: (v1.z
                + gd.z) as i64 };
            let p2 = V3 {
                x: (b.pos.x + tdiv(v2.x * dt, SCALE as int)) as i64,
                y: (b.pos.y + tdiv(v2.y * dt, SCALE as int)) as i64,
                z: (b.pos.z + tdiv(v2.z * dt, SCALE as int)) as i64,
            };
            Some(Body { mass: b.mass, pos: p2, vel: v2, orient: orient1 })
        },
    }
}

/// The orientation of the player slot of w, identity if there is none
/// (only used to state bounds over the look fold).
pub open spec fn player_orientg(w: World, player: int) -> Qg {
    if 0 <= player < w.bodies@.len() {
        match w.bodies@[player] {
            Some(b) => b.orient.g(),
            None => crate::quat::identityg(),
        }
    } else {
        crate::quat::identityg()
    }
}

/// A present body with its orientation replaced by the stored form of q.
pub open spec fn orient_updated(ob: Option<Body>, q: Qg) -> Option<Body> {
    match ob {
        None => None,
        Some(b) => Some(Body { orient: quat_of_g(q), ..b }),
    }
}

/// One whole simulation tick. Returns the cursor-lock state the next tick
/// starts from.
pub fn tick(w: &mut World, cursor: CursorState, player: usize, input: &TickInput, dt: i64,
    cfg: &TickConfig) -> (r: CursorState)
    requires
        old(w).wf(),
        old(w).sim_bounded(),
        old(w).vel_bounded(TICK_VEL_CAP as int),
        0 <= dt <= MAX_DT,
        0 <= cfg.damping <= MAX_DAMPING,
        0 <= cfg.thrust <= MAX_THRUST,
        -1_000_000 <= cfg.look_sensitivity <= 1_000_000,
        forall|e: int|
            0 <= e < input.pointer@.len() ==> pointer_event_ok(#[trigger] input.pointer@[e],
            cfg.look_sensitivity as int),
        forall|k: int|
            0 <= k <= input.pointer@.len() ==> qg_bounded(
                #[trigger] look_foldg(player_orientg(*old(w), player as int), input.pointer@,
                    cfg.look_sensitivity as int, k),
                QUAT_CAP as int,
            ),
        gravity_fits(*old(w), dt as int, cfg.damping as int),
    ensures
        r == cursor_next(cursor, input.grab, input.release),
        final(w).wf(),
        final(w).bodies@.len() == old(w).bodies@.len(),
        final(w).affectors == old(w).affectors,
        forall|i: int|
            0 <= i < old(w).bodies@.len() ==> final(w).bodies@[i] == tick_step_body(
                *old(w), i, player as int, input.keys, cursor_next(cursor, input.grab,
                input.release).locked, input.pointer@, cfg.look_sensitivity as int, dt as int,
                cfg.damping as int, cfg.thrust as int),
{
    let cur2 = cursor_update(cursor, input.grab, input.release);
    let ghost w0 = *w;
    let ghost sens = cfg.look_sensitivity as int;
    let ghost q0 = player_orientg(w0, player as int);
    proof {
        if (player as int) < w0.bodies@.len() {
            assert(orient_updated(w0.bodies@[player as int], look_foldg(q0, input.pointer@, sens,
                0)) == w0.bodies@[player as int]);
        }
    }
    let n = input.pointer.len();
    let mut e: usize = 0;
    while e < n
        invariant
            e <= n,
            n == input.pointer@.len(),
            w.wf(),
            w.sim_bounded(),
            w.bodies@.len() == w0.bodies@.len(),
            w.affectors == w0.affectors,
            w0.wf(),
            w0.sim_bounded(),
            w0.vel_bounded(TICK_VEL_CAP as int),
            sens == cfg.look_sensitivity as int,
            q0 == player_orientg(w0, player as int),
            -1_000_000 <= cfg.look_sensitivity <= 1_000_000,
            forall|j: int|
                0 <= j < input.pointer@.len() ==> pointer_event_ok(#[trigger] input.pointer@[j],
                sens),
            forall|k: int|
                0 <= k <= input.pointer@.len() ==> qg_bounded(
                    #[trigger] look_foldg(q0, input.pointer@, sens, k), QUAT_CAP as int),
            forall|i: int|
                0 <= i < w0.bodies@.len() && i != player ==> w.bodies@[i] == w0.bodies@[i],
            !cur2.locked ==> w.bodies@ == w0.bodies@,
            cur2.locked && (player as int) < w0.bodies@.len() ==> w.bodies@[player as int]
                == orient_updated(w0.bodies@[player as int], look_foldg(q0, input.pointer@, sens,
                e as int)),
        decreases n - e,
    {
        let (dx, dy) = input.pointer[e];
        proof {
            assert(pointer_event_ok(input.pointer@[e as int], sens));
            assert(qg_bounded(look_foldg(q0, input.pointer@, sens, e as int), QUAT_CAP as int));
            assert(qg_bounded(look_foldg(q0, input.pointer@, sens, 0), QUAT_CAP as int));
            if (player as int) < w.bodies@.len() && w.bodies@[player as int] is Some {
                if cur2.locked {
                    assert(w.bodies@[player as int]->Some_0.orient.g() == look_foldg(q0,
                        input.pointer@, sens, e as int));
                } else {
                    assert(w.bodies@[player as int]->Some_0.orient.g() == q0);
                }
            }
        }
        player_look(w, player, dx, dy, cfg.look_sensitivity, cur2.locked);
        proof {
            if cur2.locked && (player as int) < w0.bodies@.len() {
                lemma_look_fold_step(w0, player as int, input.pointer@, sens, e as int);
            }
        }
        e = e + 1;
    }
    let ghost w1 = *w;
    proof {
        if (player as int) < w1.bodies@.len() && w1.bodies@[player as int] is Some {
            if cur2.locked {
                assert(w1.bodies@[player as int]->Some_0.orient.g() == look_foldg(q0,
                    input.pointer@, sens, n as int));
            } else {
                assert(w1.bodies@[player as int]->Some_0.orient.g() == q0);
                assert(qg_bounded(look_foldg(q0, input.pointer@, sens, 0), QUAT_CAP as int));
            }
        }
        assert forall|i: int| 0 <= i < w1.bodies@.len() implies body_vel_bounded(
            #[trigger] w1.bodies@[i], VEL_CAP as int) by {
            assert(body_vel_bounded(w0.bodies@[i], TICK_VEL_CAP as int));
        }
    }
    player_thrust(w, player, &input.keys, dt, cfg.thrust);
    let ghost w2 = *w;
    proof {
        if (player as int) < w2.bodies@.len() && w1.bodies@[player as int] is Some {
            lemma_thrust_delta_bound(w1.bodies@[player as int]->Some_0.orient.g(), input.keys,
                dt as int, cfg.thrust as int);
        }
        assert forall|i: int| 0 <= i < w2.bodies@.len() implies body_vel_bounded(
            #[trigger] w2.bodies@[i], VEL_CAP as int) by {
            assert(body_vel_bounded(w0.bodies@[i], TICK_VEL_CAP as int));
        }
        assert forall|i: int| 0 <= i < w2.bodies@.len() implies same_mass_pos(
            #[trigger] w2.bodies@[i], w0.bodies@[i]) by {
        }
        assert forall|i: int| 0 <= i < w2.bodies@.len() implies v3g_bounded(
            #[trigger] gravity_dvel(w2, i, dt as int, cfg.damping as int), DVEL_CAP as int) by {
            lemma_dvel_reads_only_mass_pos(w2, w0, i, dt as int, cfg.damping as int);
        }
        assert(gravity_fits(w2, dt as int, cfg.damping as int));
    }
    gravity_tick(w, dt, cfg.damping);
    let ghost w3 = *w;
    motion_tick(w, dt);
    proof {
        assert forall|i: int| 0 <= i < w0.bodies@.len() implies final(w).bodies@[i]
            == tick_step_body(w0, i, player as int, input.keys, cur2.locked, input.pointer@, sens,
            dt as int, cfg.damping as int, cfg.thrust as int) by {
            lemma_dvel_reads_only_mass_pos(w2, w0, i, dt as int, cfg.damping as int);
            assert(w3.bodies@[i] == gravity_step_body(w2, i, dt as int, cfg.damping as int));
            assert(final(w).bodies@[i] == motion_step_body(w3.bodies@[i], dt as int));
        }
    }
    cur2
}

/// Unfolding one step of the look fold against `look_step_body`: applying
/// one more event to the stored fold of the first e events gives the
/// stored fold of the first e + 1, as long as the prefix stays within the
/// orientation bound (so that storing loses nothing).
proof fn lemma_look_fold_step(w0: World, player: int, deltas: Seq<(i64, i64)>, sens: int, e: int)
    requires
        0 <= player < w0.bodies@.len(),
        0 <= e < deltas.len(),
        qg_bounded(look_foldg(player_orientg(w0, player), deltas, sens, e), QUAT_CAP as int),
    ensures
        look_step_body(orient_updated(w0.bodies@[player], look_foldg(player_orientg(w0, player),
            deltas, sens, e)), deltas[e].0 as int, deltas[e].1 as int, sens) == orient_updated(
            w0.bodies@[player], look_foldg(player_orientg(w0, player), deltas, sens, e + 1)),
{
    match w0.bodies@[player] {
        None => {},
        Some(b) => {
            let f = look_foldg(player_orientg(w0, player), deltas, sens, e);
            assert(quat_of_g(f).g() == f);
        },
    }
}

} // verus!
