//! Simulation core of an endless-runner game: jump physics, procedural
//! walk-cycle animation driven by a gait phase clock, approximate two-bone
//! inverse kinematics, a jittered obstacle scheduler, scrolling collision and
//! scoring, and a tick-driven hit-reaction flicker.
//!
//! All quantities are fixed-point integers in micro-units (see [`fx`]), so
//! every update is exact and fully specified.

pub mod characters;
pub mod environment;
pub mod flicker;
pub mod fx;
pub mod gait;
pub mod obstacles;
pub mod palette;
pub mod physics;
pub mod rng;
pub mod tail;
pub mod trig;
pub mod vec3;
