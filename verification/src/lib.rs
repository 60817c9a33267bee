//! Axis-aligned collision core for a 2D top-down game.
//!
//! The crate has three parts:
//!
//! - [`geometry`]: integer 2D vectors, collision shapes (points and
//!   axis-aligned rectangles centered on their position), and the exclusive
//!   overlap test between two placed shapes, both at rest and swept along a
//!   displacement.
//! - [`index`]: a spatial collision index. Once per simulation tick the
//!   caller refreshes it with a snapshot of every collidable entity
//!   (identifier, position, shape, layer flags); queries then report the
//!   first snapshot entry, in snapshot order, that a candidate shape
//!   overlaps, honoring an optional filter (self-exclusion and layer flags).
//! - [`resolver`]: the movement resolver. It turns a raw movement input into
//!   a per-tick displacement (unit direction times speed times time step,
//!   in fixed-point integer arithmetic) and commits the X and Y components
//!   independently: each axis is probed ahead against the index from the
//!   pre-move position and contributes only if its probe hits nothing, which
//!   lets entities slide along obstacles.
//!
//! All coordinates are plain integers (world units); time steps are
//! milliseconds. The host that owns entity storage and transforms converts
//! to and from these units at its edge.

pub mod geometry;
pub mod index;
pub mod resolver;
