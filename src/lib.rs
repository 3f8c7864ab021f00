//! Authoritative server core of a tile-based multiplayer world.
//!
//! World coordinates are fixed-point integers: one pixel is
//! [`geometry::SUBPIXELS_PER_PIXEL`] units, velocities are in units per
//! second and times in microseconds.
pub mod chat;
pub mod delivery;
pub mod dispatch;
pub mod geometry;
pub mod map;
pub mod protocol;
pub mod server;
pub mod tick;
