//! Core simulation of a 2D grid-based factory game.
//!
//! A fixed 64x64 grid holds stationary, player-placed machines (conveyor
//! belts, graters, targets, and placeholder cows and milkers) and movable
//! grid objects (cheese, milk, grated cheese).  A repeating one-second
//! timer drives discrete simulation steps in which each machine acts on
//! the object sharing its cell: conveyors push, graters grate and push,
//! targets consume.
//!
//! Rendering, input and scheduling are collaborators outside this crate:
//! the simulation holds only logical records plus an opaque handle to
//! each record's externally owned visual entity, and reports which
//! handles must be despawned or re-skinned after each step.

use vstd::prelude::*;

pub mod cursor;
pub mod grid;
pub mod tick;
pub mod timer;
pub mod widget;
pub mod world;

verus! {

/// Largest coordinate on either axis; the grid is a square of
/// `(MAX_WORLD_COORD + 1) x (MAX_WORLD_COORD + 1)` cells.
pub const MAX_WORLD_COORD: u32 = 63;

/// Side length of one grid cell in world-space units, used by the
/// rendering collaborator to place visuals at `grid position * CELL_SIZE`.
pub const CELL_SIZE: u32 = 32;

} // verus!
