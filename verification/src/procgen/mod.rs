//! Map generation and what is read off a map: flow fields and spawn points.

pub mod bsp;
pub mod bsp_laws;
pub mod carve;
pub mod flow;
pub mod grid;
pub mod operation_laws;
pub mod spawn;
pub mod tilemap;
pub mod viz;
