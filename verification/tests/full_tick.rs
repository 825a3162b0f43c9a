//! Tests of the whole-tick pipeline: cursor edges, player controller,
//! gravity, then motion, in one call.

use nbody_core::player::{CursorState, KeyState};
use nbody_core::quat::Quat;
use nbody_core::tick::{tick, TickConfig, TickInput};
use nbody_core::vec3::V3;
use nbody_core::world::World;

fn config() -> TickConfig {
    TickConfig { damping: 100, thrust: 30_000, look_sensitivity: -1 }
}

fn idle_input() -> TickInput {
    TickInput { keys: KeyState::none(), grab: false, release: false, pointer: Vec::new() }
}

/// The reference two-body scenario through the full tick: with no input,
/// one tick must yield exactly what gravity-then-motion yields.
#[test]
fn tick_runs_gravity_then_motion() {
    let mut w = World::new();
    let a = w.add_body(100_000, V3::new(-10_000, 0, 0), V3::new(0, 0, 5_000), Quat::identity());
    let b = w.add_body(50_000, V3::new(10_000, 0, 0), V3::new(0, 0, -10_000), Quat::identity());
    w.set_affectors(b, vec![a]);
    let cursor = CursorState { locked: false };

    let cursor = tick(&mut w, cursor, 99, &idle_input(), 1_000, &config());
    assert!(!cursor.locked);
    assert_eq!(w.body(a).unwrap().vel, V3::new(0, 0, 5_000));
    assert_eq!(w.body(b).unwrap().vel, V3::new(-25, 0, -10_000));
    assert_eq!(w.body(a).unwrap().pos, V3::new(-10_000, 0, 5_000));
    assert_eq!(w.body(b).unwrap().pos, V3::new(9_975, 0, -10_000));
}

/// Thrust runs before the motion step: the position already moves by the
/// post-thrust velocity within the same tick.
#[test]
fn tick_applies_thrust_before_motion() {
    let mut w = World::new();
    let p = w.add_body(1, V3::new(94_000, 0, 0), V3::new(0, 0, 35_000), Quat::identity());
    let input = TickInput {
        keys: KeyState { forward: true, ..KeyState::none() },
        grab: false,
        release: false,
        pointer: Vec::new(),
    };
    let cursor = CursorState { locked: false };

    tick(&mut w, cursor, p, &input, 1_000, &config());
    assert_eq!(w.body(p).unwrap().vel, V3::new(0, 0, 5_000));
    assert_eq!(w.body(p).unwrap().pos, V3::new(94_000, 0, 5_000));
}

/// A grab edge locks the cursor within the same tick, so that tick's
/// pointer events already steer; a later release edge unlocks, after
/// which pointer events are ignored again.
#[test]
fn tick_cursor_gates_pointer_motion() {
    let mut w = World::new();
    let p = w.add_body(1, V3::new(0, 0, 0), V3::new(0, 0, 0), Quat::identity());
    let cfg = config();
    let cursor = CursorState { locked: false };

    // One radian of pitch: sensitivity -0.001 times a delta of -1000 counts.
    let look = TickInput {
        keys: KeyState::none(),
        grab: true,
        release: false,
        pointer: vec![(0, -1_000_000)],
    };
    let cursor = tick(&mut w, cursor, p, &look, 16, &cfg);
    assert!(cursor.locked);
    let q = w.body(p).unwrap().orient;
    assert!(860 <= q.w && q.w <= 895, "w was {}", q.w);
    assert!(465 <= q.x && q.x <= 495, "x was {}", q.x);

    let release = TickInput {
        keys: KeyState::none(),
        grab: false,
        release: true,
        pointer: vec![(500_000, 250_000)],
    };
    let cursor = tick(&mut w, cursor, p, &release, 16, &cfg);
    assert!(!cursor.locked);
    assert_eq!(w.body(p).unwrap().orient, q);
}
