//! A dense per-pixel displacement field: lookup of the displaced coordinate of
//! a grid cell, bilinear sampling of a raster at that coordinate, and
//! refinement of the field from single observed correspondences.

pub mod distortion;
pub mod error;
pub mod grid;
pub mod image;
pub mod kernel;
pub mod scalar;
