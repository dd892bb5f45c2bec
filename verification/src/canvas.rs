//! The pixel canvas: colors, the game of life on colored cells, and the tiles that store it.
pub mod color;
pub mod invoke;
pub mod laws;
pub mod life;
pub mod results;
pub mod run;
pub mod tile;
pub mod tile_laws;
