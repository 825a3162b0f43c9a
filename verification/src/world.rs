//! The body registry and affector graph: per-entity mass, position,
//! velocity and orientation, plus the explicit list of which other entities
//! exert gravity on each one. Affector entries are weak: they are plain
//! indices, a removed or out-of-range target is skipped, never a fault.

use vstd::prelude::*;
use crate::vec3::{V3, v3g_bounded};
use crate::quat::Quat;

verus! {

/// Largest admitted mass (fixed-point thousandths, so 1000 units).
pub const MAX_MASS: i64 = 1_000_000;

/// Largest admitted position component magnitude (a million units).
pub const MAX_POS: i64 = 1_000_000_000;

/// Largest admitted affector-list length.
pub const MAX_AFFECTORS: usize = 1_000;

/// Largest admitted tick delta (a thousand seconds).
pub const MAX_DT: i64 = 1_000_000;

/// Largest admitted damping factor (ten).
pub const MAX_DAMPING: i64 = 10_000;

/// Largest admitted thrust speed constant.
pub const MAX_THRUST: i64 = 1_000_000;

/// Velocity magnitude admitted into the integrators.
pub const VEL_CAP: i64 = 4_000_000_000_000_000;

/// Orientation component magnitude the controller's rotations admit (a unit
/// orientation stays near SCALE; this leaves room for rounding drift).
pub const QUAT_CAP: i64 = 10_000;

/// Largest per-tick velocity increment the gravity integrator admits.
pub const DVEL_CAP: i64 = 100_000_000_000_000;

/// Physical state of one entity: mass, placement (position and
/// orientation) and the velocity that several writers add to each tick.
#[derive(Clone, Copy, PartialEq, Eq, Structural, Debug)]
pub struct Body {
    pub mass: i64,
    pub pos: V3,
    pub vel: V3,
    pub orient: Quat,
}

/// The registry: slot i holds entity i's body (or nothing once removed)
/// and the list of entities that exert gravity on entity i.
pub struct World {
    pub bodies: Vec<Option<Body>>,
    pub affectors: Vec<Vec<usize>>,
}

/// Every present body has positive mass.
pub open spec fn body_mass_ok(b: Option<Body>) -> bool {
    match b {
        Some(bb) => 1 <= bb.mass,
        None => true,
    }
}

/// A present body within the simulation's mass and position bounds.
pub open spec fn body_sim_bounded(b: Option<Body>) -> bool {
    match b {
        Some(bb) => bb.mass <= MAX_MASS && v3g_bounded(bb.pos.g(), MAX_POS as int),
        None => true,
    }
}

/// A present body's velocity within m.
pub open spec fn body_vel_bounded(b: Option<Body>, m: int) -> bool {
    match b {
        Some(bb) => v3g_bounded(bb.vel.g(), m),
        None => true,
    }
}

/// No entry of this affector list points back at entity i itself.
pub open spec fn no_self_edge(affs: Seq<usize>, i: int) -> bool {
    forall|k: int| 0 <= k < affs.len() ==> (#[trigger] affs[k]) as int != i
}

impl World {
    /// The affector lists as mathematical sequences.
    pub open spec fn affs(self) -> Seq<Seq<usize>> {
        Seq::new(self.affectors@.len(), |i: int| self.affectors@[i]@)
    }

    /// Structural well-formedness: one affector list per body slot, every
    /// present mass positive, and no entity listing itself as an affector
    /// (a self edge would mean a force at zero distance).
    pub open spec fn wf(self) -> bool {
        &&& self.bodies@.len() == self.affectors@.len()
        &&& forall|i: int| 0 <= i < self.bodies@.len() ==> body_mass_ok(#[trigger] self.bodies@[i])
        &&& forall|i: int|
            0 <= i < self.affectors@.len() ==> no_self_edge((#[trigger] self.affectors@[i])@, i)
    }

    /// Masses, positions and affector-list lengths within the bounds the
    /// integrators' arithmetic is sized for.
    pub open spec fn sim_bounded(self) -> bool {
        &&& forall|i: int|
            0 <= i < self.bodies@.len() ==> body_sim_bounded(#[trigger] self.bodies@[i])
        &&& forall|i: int|
            0 <= i < self.affectors@.len() ==> (#[trigger] self.affectors@[i])@.len()
                <= MAX_AFFECTORS
    }

    /// Every present velocity within m.
    pub open spec fn vel_bounded(self, m: int) -> bool {
        forall|i: int| 0 <= i < self.bodies@.len() ==> body_vel_bounded(#[trigger] self.bodies@[i], m)
    }

    /// An empty registry.
    pub fn new() -> (w: World)
        ensures
            w.wf(),
            w.sim_bounded(),
            w.bodies@.len() == 0,
    {
        World { bodies: Vec::new(), affectors: Vec::new() }
    }

    /// Number of entity slots, removed ones included.
    pub fn len(&self) -> (n: usize)
        ensures
            n == self.bodies@.len(),
    {
        self.bodies.len()
    }

    /// Create an entity with no affectors and return its id.
    pub fn add_body(&mut self, mass: i64, pos: V3, vel: V3, orient: Quat) -> (id: usize)
        requires
            old(self).wf(),
            1 <= mass,
            old(self).bodies@.len() < 1_000_000_000,
        ensures
            final(self).wf(),
            id == old(self).bodies@.len(),
            final(self).bodies@ == old(self).bodies@.push(Some(Body { mass, pos, vel, orient })),
            final(self).affs() =~~= old(self).affs().push(Seq::<usize>::empty()),
    {
        let id = self.bodies.len();
        self.bodies.push(Some(Body { mass, pos, vel, orient }));
        self.affectors.push(Vec::new());
        proof {
            assert(final(self).affs() =~~= old(self).affs().push(Seq::<usize>::empty()));
        }
        id
    }

    /// Replace entity id's affector list.
    pub fn set_affectors(&mut self, id: usize, list: Vec<usize>)
        requires
            old(self).wf(),
            id < old(self).bodies@.len(),
            no_self_edge(list@, id as int),
        ensures
            final(self).wf(),
            final(self).bodies@ == old(self).bodies@,
            final(self).affs() =~~= old(self).affs().update(id as int, list@),
    {
        self.affectors.set(id, list);
        proof {
            assert(final(self).affs() =~~= old(self).affs().update(id as int, list@));
        }
    }

    /// Remove entity id's body, leaving a dangling slot that force
    /// evaluation skips.
    pub fn remove_body(&mut self, id: usize)
        requires
            old(self).wf(),
            id < old(self).bodies@.len(),
        ensures
            final(self).wf(),
            final(self).bodies@ == old(self).bodies@.update(id as int, None),
            final(self).affectors == old(self).affectors,
    {
        self.bodies.set(id, None);
    }

    /// Look an entity up by id; out-of-range or removed ids yield nothing.
    pub fn body(&self, id: usize) -> (r: Option<Body>)
        ensures
            r == if (id as int) < self.bodies@.len() {
                self.bodies@[id as int]
            } else {
                None::<Body>
            },
    {
        if id < self.bodies.len() {
            self.bodies[id]
        } else {
            None
        }
    }

    /// The placement an entity exposes to the presentation layer: its
    /// position and orientation, read-only.
    pub fn placement(&self, id: usize) -> (r: Option<(V3, Quat)>)
        ensures
            r == match (if (id as int) < self.bodies@.len() {
                self.bodies@[id as int]
            } else {
                None::<Body>
            }) {
                Some(b) => Some((b.pos, b.orient)),
                None => None::<(V3, Quat)>,
            },
    {
        if id < self.bodies.len() {
            match &self.bodies[id] {
                Some(b) => Some((b.pos, b.orient)),
                None => None,
            }
        } else {
            None
        }
    }
}

} // verus!
