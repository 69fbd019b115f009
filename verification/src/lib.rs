//! A minimal collision-aware movement engine.
//!
//! The engine tracks one controllable agent and a set of static box
//! obstacles, maps analog input into a desired per-frame displacement
//! (the "intent"), and resolves that intent against contact geometry so
//! the agent slides along obstacles instead of passing through them.
//!
//! All geometry is carried in fixed-point coordinates: an `i64` holds a
//! world length scaled by [`fixed::SCALE`], so `1000` stands for one
//! world unit. Every function of the library states its exact result in
//! its contract and is verified against it.

pub mod entity;
pub mod fixed;
pub mod gamepad;
pub mod intent;
pub mod laws;
pub mod resolve;
pub mod vec;
pub mod world;
