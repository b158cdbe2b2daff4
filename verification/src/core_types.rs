//! Chunk coordinates of the game world.
pub mod chunks;
pub mod helpers;
