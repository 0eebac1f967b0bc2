//! Per-tick decision core for a bot that plays a hex-grid strategy
//! simulation: it classifies owned units into roles, picks combat and
//! support targets, plans hazard-aware movement, resolves speculative
//! combat against the local world view, and emits a batch of intents
//! for an external engine to apply.

pub mod hex;
pub mod components;
pub mod hexgrid;
pub mod world;
pub mod intents;
pub mod roles;
pub mod targeting;
pub mod pathing;
pub mod combat;
pub mod engine;
pub mod behaviors;
pub mod tick;
