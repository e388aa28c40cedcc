//! Conway's Game of Life on a fixed-size toroidal grid, with a step
//! operation that reports exactly the cells that changed.
//!
//! `game` holds the grid and its operations, `model` the mathematical grid
//! that their contracts speak of, `laws` and `patterns` what is proved of that
//! model, `arith` the facts about wrapping that the proofs rest on,
//! `layout` the place of each cell on the panel, and `editor` what the
//! stylus does to the grid.

pub mod arith;
pub mod editor;
pub mod game;
pub mod laws;
pub mod layout;
pub mod model;
pub mod patterns;
