//! The state of a running game and what happens to it.

pub mod blast;
pub mod debug;
pub mod director;
pub mod entity;
pub mod events;
pub mod fight_laws;
pub mod loot;
pub mod motion;
pub mod nearby;
pub mod operation_laws;
pub mod pickup;
pub mod rack;
pub mod rack_laws;
pub mod shots;
pub mod tick;
pub mod tunables;
pub mod world;
