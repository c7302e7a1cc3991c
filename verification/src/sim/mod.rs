//! The loot simulator: rolling many drops and looking at how they are distributed.

pub mod csv;
pub mod drops;
pub mod loadout;
pub mod measure;
pub mod operation_laws;
pub mod report;
pub mod summary;
