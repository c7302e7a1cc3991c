//! The rules of items, combat and progression.

pub mod affix;
pub mod aggregate;
pub mod aggregate_laws;
pub mod attach;
pub mod combat;
pub mod enemy;
pub mod item;
pub mod operation_laws;
pub mod progression;
pub mod rarity;
pub mod roll;
pub mod roll_laws;
pub mod stats;
pub mod upgrade;
