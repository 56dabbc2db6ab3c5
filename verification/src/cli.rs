//! Command line values.
pub mod rendering_mode;
