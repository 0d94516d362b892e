//! The rules of a small shooting game.
//!
//! A turret stands at the bottom of the playing field. The arrow keys move
//! it to the left and to the right, the up key fires a bullet if one is
//! left, and the escape key ends the game. To the right of the field a wall
//! sets off a panel that shows the bullets in stock and the score.
//!
//! This module decides what the keys do, where enemies come onto the
//! field, what is taken off it and what is drawn where. How bullets and
//! enemies move, and when a bullet hits, is not decided here.

pub mod board;
pub mod enemies;
pub mod keys;
pub mod random;

use vstd::prelude::*;

pub use board::decimal_digits;
pub use board::load_view;
pub use board::render;
pub use board::Board;
pub use board::RenderError;
pub use enemies::create_enemies;
pub use enemies::create_enemy;
pub use enemies::enemy_at;
pub use enemies::left_field;
pub use enemies::refund;
pub use enemies::remove_marked;
pub use enemies::replacements;
pub use enemies::Enemy;
pub use keys::input;
pub use keys::Key;
pub use keys::Turret;

verus! {

/// The size of the playing field: columns, then rows.
pub const S_SIZE: (u16, u16) = (50, 30);

/// Frames per second.
pub const FPS: u8 = 30;

} // verus!
