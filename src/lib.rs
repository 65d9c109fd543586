//! Grid-based isometric push-puzzle simulation core.
//!
//! Pixel positions are whole pixels in world-buffer space and times are
//! microseconds, so that every step of the simulation is exact integer
//! arithmetic.
pub mod atlas;
pub mod behaviour;
pub mod laws;
pub mod level;
pub mod map;
pub mod motion;
pub mod presentation;
pub mod world;
