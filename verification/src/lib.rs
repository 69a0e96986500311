//! Simulation core of a fixed-formation arcade shooter.
//!
//! The library tracks the player cannon, the alien formation and the
//! projectiles, advances their motion each discrete tick, resolves
//! axis-aligned collisions, applies the scoring and life-loss rules, and
//! drives mission progression (wave cleared advances the difficulty, lives
//! exhausted restarts at level one). Rendering, input polling and level-file
//! parsing are outside collaborators: the library exchanges plain values with
//! them.

use vstd::prelude::*;

pub mod collision;
pub mod entities;
pub mod formation;
pub mod geometry;
pub mod layout;
pub mod mission;
pub mod projectiles;
pub mod sim;
pub mod store;

verus! {

/// Horizontal distance the cannon moves per pressed tick.
pub const CANNON_STEP: i32 = 10;

/// Horizontal distance the alien formation moves per tick.
pub const ALIEN_STEP: i32 = 2;

/// Half of the standard alien width; an alien within this margin of a screen
/// edge counts as touching it.
pub const EDGE_MARGIN: i32 = 20;

/// Vertical speed of a projectile, per tick; cannon balls move up, alien
/// balls down.
pub const PROJECTILE_SPEED: i32 = 5;

/// A cannon ball spawns this far above the cannon.
pub const CANNON_FIRE_OFFSET: i32 = 20;

/// An alien ball spawns this far below the firing alien.
pub const ALIEN_FIRE_OFFSET: i32 = 25;

/// Base score unit; each alien kind is worth a fixed multiple of it.
pub const BASE_ALIEN_SCORE: u64 = 10;

/// Interval of the periodic alien-fire timer, in milliseconds.
pub const FIRE_INTERVAL_MS: u64 = 3000;

/// Lives a fresh cannon starts with.
pub const DEFAULT_LIVES: u32 = 3;

/// Largest screen width or height, in units, the core accepts; real windows
/// are far smaller, and the cap keeps every coordinate computation inside
/// `i32`.
pub const MAX_SCREEN_DIM: i32 = 1_000_000;

/// Every alien and cannon coordinate stays within this magnitude; seeding
/// and clamped movement keep it so, and it leaves headroom for every
/// per-tick offset.
pub const POS_LIMIT: i32 = 100_000_000;

/// Every projectile coordinate stays within this magnitude: projectiles
/// spawn a fixed offset away from a bounded entity, and advancing keeps
/// survivors inside the screen.
pub const PROJECTILE_POS_LIMIT: i32 = POS_LIMIT + 100;

} // verus!
