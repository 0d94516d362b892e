//! Sprites, scenes, frames and the difference between two frames.

pub mod changes;
pub mod scene;
pub mod types;
pub mod yaml;
