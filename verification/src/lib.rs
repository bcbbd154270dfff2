//! Composition of solid outlines into path commands.
//!
//! The library is generic over the point type `P` (and, for elliptical
//! arcs, the radius type `R`): it decides which path commands are emitted,
//! in which order and with which points, while the coordinate arithmetic
//! is done by the caller.

pub mod curves;
pub mod paint;
pub mod path;
pub mod subdivision;
