//! What stands between the player and the game: devices turned into commands, and the state
//! of the game turned into something to look at.

pub mod character;
pub mod hud;
pub mod input;
pub mod inventory;
pub mod labels;
pub mod level;
pub mod operation_laws;
pub mod overlay;
pub mod pad;
pub mod pool;
pub mod scene;
