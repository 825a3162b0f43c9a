//! Core of an N-body gravity simulation: a registry of bodies with explicit
//! per-entity affector lists, a gravity integrator that accumulates pairwise
//! forces into velocities, a motion integrator that applies velocities to
//! positions, and a player controller that turns key state and pointer motion
//! into thrust and orientation changes on one designated body.
//!
//! Each tick runs, in this order: input edges into the cursor lock, the
//! player controller (look, then thrust), the gravity integrator over every
//! entity, and — only after every velocity writer has run — the motion
//! integrator. The `tick` module drives one whole tick under one contract.
//!
//! All scalars are fixed-point integers counting thousandths of a unit, so
//! every formula in the contracts is exact integer arithmetic: no pair at
//! zero distance, no dangling affector and no division can fault a tick.

pub mod gravity;
pub mod motion;
pub mod player;
pub mod quat;
pub mod scalar;
pub mod tick;
pub mod trig;
pub mod vec3;
pub mod world;
