//! Procedural assembly of a four-quadrant exploration map from a pool of
//! pre-authored 8x8 map fragments.
pub mod tiles;
pub mod grid;
pub mod fragment;
pub mod loader;
pub mod select;
pub mod map;
pub mod game;
