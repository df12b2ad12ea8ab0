//! Core of a grid-based snake game: geometry, movement, collision
//! detection, scoring, food placement and the per-tick state machine.
//!
//! The render and input shell around the library only draws segments and
//! hands direction intents in; everything the game decides is here.

pub mod game;
pub mod geometry;
pub mod snake;
pub mod spawn;

pub use geometry::{Block, Color, Direction};
pub use geometry::{BLOCK_SIZE, SCREEN_HEIGHT, SCREEN_WIDTH};
pub use snake::{add_block, collision, move_player, score};
pub use snake::{SELF_COLLISION_SKIP, START_LENGTH};
pub use game::{GameInput, GameState, Status};
pub use spawn::random_point;
