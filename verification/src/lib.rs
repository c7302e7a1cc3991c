pub mod center;
pub mod game;
pub mod procgen;
pub mod rng;
pub mod rules;
pub mod scalar;
pub mod sim;
pub mod text;
pub mod ui;
pub mod weighted;
