//! Core logic of a jigsaw-puzzle game.
//!
//! An image is sliced into a grid of tiles, the tiles are scattered, and the
//! player drags them onto a board of target slots; the game is won when every
//! tile occupies its correct slot.  This crate holds the verified core of
//! that game: the grid layout, the image partitioning, and the stateful
//! tile/slot matching engine.  Rendering, windowing and input devices are
//! collaborators outside of it.
//!
//! All world coordinates are integers.  A caller that works in fractional
//! screen units picks a scale (for instance a thousand units per pixel) and
//! hands the scaled values in; every contract here is exact in those units.

pub mod laws;
pub mod layout;
pub mod levels;
pub mod model;
pub mod partition;
pub mod pieces;
pub mod puzzle;
pub mod rng;
