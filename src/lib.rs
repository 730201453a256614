//! Extraction of a regular grid of square cells out of raster images.
//!
//! The library decides which cells of a grid fit inside an image, names each
//! cell by its position, copies cell pixels out of an image, and parses the
//! small textual inputs that drive a run. Decoding, encoding and writing
//! files are left to the caller.

mod arith;
pub mod grid;
pub mod raster;
pub mod text;
pub mod naming;
pub mod run;
