//! Computational geometry and spatial indexing for generative art.
//!
//! Coordinates are integers (pixel units), so every geometric predicate in
//! this crate is exact and its behaviour is stated over mathematical integers.
pub mod color;
pub mod math;
pub mod path;
pub mod path_style;
pub mod point;
pub mod pointmap;
pub mod rectangle;
pub mod shape;
