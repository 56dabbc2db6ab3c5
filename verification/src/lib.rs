//! A ray tracer's exact parts: reading scene descriptions, choosing and
//! ordering the intersections of a ray, the pixel grid and its PPM text, the
//! layout of matrices, the bands of patterns, and PNG files of images.
use vstd::prelude::*;

pub mod args;
pub mod canvas;
pub mod cli;
pub mod distance;
pub mod intersections;
pub mod matrix;
pub mod patterns;
pub mod png;
pub mod scene;
pub mod yaml;

verus! {
} // verus!
