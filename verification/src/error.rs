//! The ways construction and stepping can be refused.

use vstd::prelude::*;

verus! {

/// A configuration that no simulation can be built from.
#[derive(Clone, Copy, PartialEq, Eq, Debug, Structural)]
pub enum ConfigError {
    /// The grid would have no columns or no rows.
    ZeroDimension,
    /// The number of display pixels per cell is zero.
    ZeroScale,
}

/// A step or commit whose buffers do not fit together.
#[derive(Clone, Copy, PartialEq, Eq, Debug, Structural)]
pub enum StepError {
    /// The output buffer and the current generation differ in width or height.
    SizeMismatch,
    /// The dispatched workgroups do not cover every cell of the grid.
    ExtentMismatch,
}

} // verus!
