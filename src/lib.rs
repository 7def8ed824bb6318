//! Deterministic core of a 2D arcade shooter: exact fixed-point geometry,
//! movement resolution against a static obstacle field, and fixed-step tick
//! scheduling.
//!
//! Units: positions are integers in sub-units, velocities in sub-units per
//! nanosecond, durations in nanoseconds, so a displacement is exactly
//! `velocity * duration`. The exact shape-against-obstacles time-of-impact
//! solver is supplied by the caller; the library decides what its answers
//! mean and how movers respond.
pub mod time;
pub mod geometry;
pub mod collide;
pub mod resolve;
pub mod schedule;
pub mod player;
pub mod net;
pub mod config;
pub mod animation;
