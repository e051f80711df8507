//! The playing field of a small top-down walking game: rectangles on a
//! tile map, the player's velocity and sprite, the camera that follows the
//! player, and the collision response that pushes the player back out of
//! solid tiles and objects.
pub mod rect;
pub mod velocity;
pub mod camera;
pub mod player;
pub mod collision;
pub mod text;
pub mod map;
pub mod input;
pub mod world;
pub mod game;
pub mod scene;

