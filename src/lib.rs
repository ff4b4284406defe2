//! Moving a player on a 2D integer grid in response to a key press.
//!
//! The y axis grows downward, as on a screen: `w` moves up (y decreases),
//! `s` moves down, `a` moves left and `d` moves right, each by [`STEP`].
//! Any other key leaves the position as it is. Coordinates are `i32` and
//! wrap around on overflow.

pub mod direction;
pub mod movement;

pub use direction::Direction;
pub use movement::{move_player, step, STEP};
