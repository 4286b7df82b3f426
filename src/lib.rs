//! Simulation and interaction core of a house-rule card game, with the
//! pixel-space geometry and input types it runs on.

pub mod command;
pub mod sprite;
pub mod unscaled;

pub use command::Command;
pub mod input;

pub use input::{Button, Input, Speaker, SFX};
pub mod cards;
pub mod graph;
pub mod anim;
pub mod ui;
pub mod choice;
pub mod render;
mod rng;
pub mod game;
pub mod dialogs;
pub mod laws;
