//! Procedural circle scenes: a greedy randomized packer that fills a square
//! area with circles that keep a fixed clearance from each other, a random
//! walk through hue, saturation and lightness that colours them, and the table
//! that gives every scene a render layer and a texture of its own.
//!
//! All quantities are fixed-point integers, see [`fixed`]. Drawing, windows and
//! the conversion of colours for display belong to the program that uses this
//! library.

pub mod fixed;
pub mod random;
pub mod color_generator;
pub mod circles;
pub mod packing;
pub mod name_table;
pub mod dynamic_textures;
pub mod scenes;
pub mod animate;
