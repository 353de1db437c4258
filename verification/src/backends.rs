//! Names of the rendering backends a display program can choose from.
use vstd::prelude::*;

verus! {

/// The rendering backends.
#[derive(Debug, Clone, Copy, PartialEq, Eq, Structural)]
pub enum BackendNames {
    /// The backend chosen when none is named.
    Default,
    /// A window drawn with the minifb library.
    MiniFB,
}

} // verus!
