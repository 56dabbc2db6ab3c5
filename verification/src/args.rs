//! The command line: the scene to read, the image to write, and how to render.
use vstd::prelude::*;

verus! {

/// How the pixels are rendered: one after another, or in parallel.
#[derive(Debug, PartialEq, Eq, Structural, Clone, Copy)]
#[allow(non_camel_case_types, clippy::upper_case_acronyms)]
pub enum RenderingMode {
    SERIAL,
    PARALLEL,
}

impl Default for RenderingMode {
    /// Rendering is parallel unless asked otherwise.
    fn default() -> (r: RenderingMode)
        ensures
            r == RenderingMode::PARALLEL,
    {
        RenderingMode::PARALLEL
    }
}

/// The arguments of the program.
#[derive(Debug, PartialEq, Clone)]
pub struct Args {
    /// The YAML scene description to read.
    pub scene_path: String,
    /// The PNG image to write.
    pub image_output_path: String,
    pub rendering_mode: RenderingMode,
}

} // verus!
