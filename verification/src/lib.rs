//! A terminal maze/collectible game engine: a rectangular grid with border
//! walls, randomly placed barriers and coins, a player token moved one cell
//! at a time, and a win condition (collect every coin).
//!
//! The crate is organised leaf-first: [`field`] owns the grid and the
//! movement rules, [`state`] tracks collected coins and the status banner,
//! [`render`] fixes the byte-exact incremental redraw protocol, and [`game`]
//! composes the three behind the operations an input loop calls.

pub mod field;
pub mod game;
pub mod render;
pub mod state;
