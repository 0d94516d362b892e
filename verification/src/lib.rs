//! A small toolkit for real-time games drawn with characters in a terminal.
//!
//! The [`renderer`] module turns a scene, a list of sprites with their
//! positions, into the few cell updates that bring the terminal from the
//! last frame to the next. The [`gameloop`] module paces a game at a fixed
//! frame rate. Neither performs any input or output: both hand out plain
//! values that say what to write, how long to sleep and when to stop.
//!
//! The [`shooter`] module holds the rules of a small game that is built on
//! the two: a turret that shoots at what falls from the sky.

pub mod gameloop;
pub mod renderer;
pub mod shooter;
