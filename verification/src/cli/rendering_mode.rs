//! How the pixels are rendered.
use vstd::prelude::*;

verus! {

/// How the pixels are rendered: one after another, or in parallel.
#[derive(Debug, PartialEq, Eq, Structural, Clone, Copy)]
pub enum RenderingMode {
    Serial,
    Parallel,
}

impl RenderingMode {
    /// The pixels are rendered in parallel.
    pub fn is_parallel(&self) -> (r: bool)
        ensures
            r == (*self == RenderingMode::Parallel),
    {
        match self {
            RenderingMode::Serial => false,
            RenderingMode::Parallel => true,
        }
    }
}

} // verus!
