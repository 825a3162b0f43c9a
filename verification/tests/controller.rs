//! Tests of the player controller: thrust from key state, look rotations
//! from pointer deltas, and the cursor lock's edge triggering.

use nbody_core::quat::{quat_mul, rotate, Quat};
use nbody_core::vec3::{norm_or_zero, V3};
use nbody_core::world::World;
use nbody_core::player::{cursor_update, player_look, player_thrust, CursorState, KeyState};
use nbody_core::scalar::{div_trunc, isqrt};

fn world_with_player() -> (World, usize) {
    let mut w = World::new();
    let p = w.add_body(1, V3::new(94_000, 0, 0), V3::new(0, 0, 35_000), Quat::identity());
    (w, p)
}

/// With the identity orientation and only "forward" held, one second of
/// thrust 30 adds exactly (0, 0, -30) to the velocity.
#[test]
fn forward_thrust_along_forward_axis() {
    let (mut w, p) = world_with_player();
    let keys = KeyState { forward: true, ..KeyState::none() };
    player_thrust(&mut w, p, &keys, 1_000, 30_000);
    assert_eq!(w.body(p).unwrap().vel, V3::new(0, 0, 35_000 - 30_000));
}

/// A diagonal (forward + right) is normalized: each axis gets 0.707 of the
/// speed, not the full constant.
#[test]
fn diagonal_thrust_is_normalized() {
    let (mut w, p) = world_with_player();
    let keys = KeyState { forward: true, right: true, ..KeyState::none() };
    player_thrust(&mut w, p, &keys, 1_000, 30_000);
    assert_eq!(w.body(p).unwrap().vel, V3::new(21_210, 0, 35_000 - 21_210));
}

/// Both keys of a pair held, or neither, contribute nothing on that axis;
/// with every axis cancelled the velocity is untouched.
#[test]
fn cancelled_keys_add_no_thrust() {
    let (mut w, p) = world_with_player();
    let keys = KeyState { forward: true, back: true, up: true, down: true, ..KeyState::none() };
    player_thrust(&mut w, p, &keys, 1_000, 30_000);
    assert_eq!(w.body(p).unwrap().vel, V3::new(0, 0, 35_000));
}

/// With no key held the player controller leaves the velocity unchanged.
#[test]
fn idle_keys_add_no_thrust() {
    let (mut w, p) = world_with_player();
    player_thrust(&mut w, p, &KeyState::none(), 1_000, 30_000);
    assert_eq!(w.body(p).unwrap().vel, V3::new(0, 0, 35_000));
}

/// While the cursor is not locked, pointer motion must not affect the
/// orientation at all.
#[test]
fn unlocked_pointer_motion_is_ignored() {
    let (mut w, p) = world_with_player();
    player_look(&mut w, p, 250_000, -125_000, -1, false);
    assert_eq!(w.body(p).unwrap().orient, Quat::identity());
    assert_eq!(w.body(p).unwrap().vel, V3::new(0, 0, 35_000));
}

/// A locked pointer-motion event pitches the orientation: one radian of
/// pitch turns the identity into a quaternion with w near cos(0.5) and x
/// near sin(0.5). Velocity and position stay untouched.
#[test]
fn locked_pointer_motion_pitches() {
    let (mut w, p) = world_with_player();
    // sensitivity -0.001 per count, as a look scale of -1; a delta of
    // -1000.0 counts gives a pitch of +1 radian.
    player_look(&mut w, p, 0, -1_000_000, -1, true);
    let q = w.body(p).unwrap().orient;
    assert!(860 <= q.w && q.w <= 895, "w was {}", q.w);
    assert!(465 <= q.x && q.x <= 495, "x was {}", q.x);
    assert!(q.y.abs() <= 5 && q.z.abs() <= 5);
    assert_eq!(w.body(p).unwrap().vel, V3::new(0, 0, 35_000));
    assert_eq!(w.body(p).unwrap().pos, V3::new(94_000, 0, 0));
}

/// Grab locks, release unlocks, holding re-triggers nothing, and a
/// simultaneous release wins over a grab.
#[test]
fn cursor_lock_edges() {
    let s0 = CursorState { locked: false };
    let s1 = cursor_update(s0, true, false);
    assert!(s1.locked);
    let s2 = cursor_update(s1, false, false);
    assert!(s2.locked);
    let s3 = cursor_update(s2, false, true);
    assert!(!s3.locked);
    let s4 = cursor_update(s3, true, true);
    assert!(!s4.locked);
    let s5 = cursor_update(s4, false, false);
    assert!(!s5.locked);
}

/// Normalize-or-zero: an exact 3-4-5 triangle normalizes exactly, and the
/// zero vector stays zero.
#[test]
fn normalize_or_zero_values() {
    assert_eq!(norm_or_zero(&V3::new(3_000, 0, 4_000)), V3::new(600, 0, 800));
    assert_eq!(norm_or_zero(&V3::new(0, 0, 0)), V3::new(0, 0, 0));
}

/// Quaternion rotation: a 90-degree yaw (w = x = 707 thousandths) turns
/// the forward axis -Z into -X, up to one thousandth of rounding.
#[test]
fn rotate_quarter_turn() {
    let q = Quat { w: 707, x: 0, y: 707, z: 0 };
    let r = rotate(&q, &V3::new(0, 0, -1_000));
    assert_eq!(r, V3::new(-999, 0, -1));
}

/// Composing with the identity quaternion is exact on both sides.
#[test]
fn quat_identity_composition() {
    let q = Quat { w: 877, x: 479, y: 0, z: 0 };
    assert_eq!(quat_mul(&q, &Quat::identity()), q);
    let r = quat_mul(&Quat::identity(), &q);
    assert_eq!(r, q);
}

/// The scalar primitives: truncating division rounds toward zero and the
/// integer square root is the floor square root.
#[test]
fn scalar_primitives() {
    assert_eq!(div_trunc(7, 2), 3);
    assert_eq!(div_trunc(-7, 2), -3);
    assert_eq!(div_trunc(0, 5), 0);
    assert_eq!(isqrt(0), 0);
    assert_eq!(isqrt(24), 4);
    assert_eq!(isqrt(25), 5);
    assert_eq!(isqrt(400_000_000), 20_000);
}
