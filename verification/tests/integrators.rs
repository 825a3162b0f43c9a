//! End-to-end and edge-case tests of the gravity and motion integrators.
//! All values are fixed-point thousandths: 100.0 units of mass is 100_000.

use nbody_core::quat::Quat;
use nbody_core::vec3::V3;
use nbody_core::world::World;
use nbody_core::gravity::gravity_tick;
use nbody_core::motion::motion_tick;

fn vel_of(w: &World, id: usize) -> V3 {
    w.body(id).unwrap().vel
}

fn pos_of(w: &World, id: usize) -> V3 {
    w.body(id).unwrap().pos
}

/// Two bodies: A {mass 100, pos (-10,0,0), vel (0,0,5)} affected by nothing,
/// B {mass 50, pos (10,0,0), vel (0,0,-10)} affected by A only; one tick of
/// one second with damping 0.1. The force on B is (-12.5,0,0), so B's
/// velocity gains (-0.025,0,0); the motion step then applies the
/// post-gravity velocities.
#[test]
fn two_body_reference_scenario() {
    let mut w = World::new();
    let a = w.add_body(100_000, V3::new(-10_000, 0, 0), V3::new(0, 0, 5_000), Quat::identity());
    let b = w.add_body(50_000, V3::new(10_000, 0, 0), V3::new(0, 0, -10_000), Quat::identity());
    w.set_affectors(b, vec![a]);

    gravity_tick(&mut w, 1_000, 100);
    assert_eq!(vel_of(&w, a), V3::new(0, 0, 5_000));
    assert_eq!(vel_of(&w, b), V3::new(-25, 0, -10_000));

    motion_tick(&mut w, 1_000);
    assert_eq!(pos_of(&w, a), V3::new(-10_000, 0, 5_000));
    assert_eq!(pos_of(&w, b), V3::new(9_975, 0, -10_000));
}

/// Equal masses affecting each other symmetrically receive exactly equal
/// and opposite velocity increments.
#[test]
fn newton_third_law_pair() {
    let mut w = World::new();
    let a = w.add_body(100_000, V3::new(-10_000, 0, 0), V3::new(0, 0, 0), Quat::identity());
    let b = w.add_body(100_000, V3::new(10_000, 0, 0), V3::new(0, 0, 0), Quat::identity());
    w.set_affectors(a, vec![b]);
    w.set_affectors(b, vec![a]);

    gravity_tick(&mut w, 1_000, 100);
    assert_eq!(vel_of(&w, a), V3::new(25, 0, 0));
    assert_eq!(vel_of(&w, b), V3::new(-25, 0, 0));
}

/// An entity with an empty affector list keeps its velocity over any
/// number of ticks.
#[test]
fn zero_affectors_velocity_unchanged() {
    let mut w = World::new();
    let a = w.add_body(100_000, V3::new(5_000, -3_000, 0), V3::new(7, -8, 9), Quat::identity());
    for _ in 0..25 {
        gravity_tick(&mut w, 1_000, 100);
        assert_eq!(vel_of(&w, a), V3::new(7, -8, 9));
    }
}

/// A coincident pair (distance exactly zero) contributes zero force and
/// never faults.
#[test]
fn coincident_pair_contributes_nothing() {
    let mut w = World::new();
    let a = w.add_body(100_000, V3::new(4_000, 4_000, 4_000), V3::new(1, 2, 3), Quat::identity());
    let b = w.add_body(50_000, V3::new(4_000, 4_000, 4_000), V3::new(-1, -2, -3), Quat::identity());
    w.set_affectors(a, vec![b]);
    w.set_affectors(b, vec![a]);

    gravity_tick(&mut w, 1_000, 100);
    assert_eq!(vel_of(&w, a), V3::new(1, 2, 3));
    assert_eq!(vel_of(&w, b), V3::new(-1, -2, -3));
}

/// A zero tick delta changes neither velocities nor positions.
#[test]
fn zero_tick_delta_is_identity() {
    let mut w = World::new();
    let a = w.add_body(100_000, V3::new(-10_000, 0, 0), V3::new(0, 0, 5_000), Quat::identity());
    let b = w.add_body(50_000, V3::new(10_000, 0, 0), V3::new(0, 0, -10_000), Quat::identity());
    w.set_affectors(a, vec![b]);
    w.set_affectors(b, vec![a]);

    gravity_tick(&mut w, 0, 100);
    motion_tick(&mut w, 0);
    assert_eq!(vel_of(&w, a), V3::new(0, 0, 5_000));
    assert_eq!(vel_of(&w, b), V3::new(0, 0, -10_000));
    assert_eq!(pos_of(&w, a), V3::new(-10_000, 0, 0));
    assert_eq!(pos_of(&w, b), V3::new(10_000, 0, 0));
}

/// A dangling affector entry — an id out of range, or one whose body was
/// removed — is skipped, not fatal.
#[test]
fn dangling_affectors_are_skipped() {
    let mut w = World::new();
    let a = w.add_body(100_000, V3::new(0, 0, 0), V3::new(0, 0, 0), Quat::identity());
    let c = w.add_body(50_000, V3::new(9_000, 0, 0), V3::new(0, 0, 0), Quat::identity());
    w.set_affectors(a, vec![c, 99]);
    w.remove_body(c);

    gravity_tick(&mut w, 1_000, 100);
    assert_eq!(vel_of(&w, a), V3::new(0, 0, 0));
}

/// The motion integrator applies velocity * dt to every body, whether or
/// not it has affectors.
#[test]
fn motion_applies_velocity() {
    let mut w = World::new();
    let a = w.add_body(1, V3::new(100, 200, 300), V3::new(1_000, -2_000, 500), Quat::identity());
    motion_tick(&mut w, 500);
    assert_eq!(pos_of(&w, a), V3::new(600, -800, 550));
}

/// Lookup of removed or out-of-range ids yields nothing; the placement
/// read-out mirrors position and orientation.
#[test]
fn registry_lookup_and_placement() {
    let mut w = World::new();
    let a = w.add_body(1, V3::new(1, 2, 3), V3::new(0, 0, 0), Quat::identity());
    assert_eq!(w.len(), 1);
    assert!(w.body(a).is_some());
    assert!(w.body(17).is_none());
    let (p, q) = w.placement(a).unwrap();
    assert_eq!(p, V3::new(1, 2, 3));
    assert_eq!(q, Quat::identity());
    w.remove_body(a);
    assert!(w.body(a).is_none());
    assert!(w.placement(a).is_none());
}
