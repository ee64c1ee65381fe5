//! The failures that the grid reports to its caller.

use vstd::prelude::*;

verus! {

/// Why a grid operation was refused.
#[derive(Debug, Clone, Copy, PartialEq, Eq, Structural)]
pub enum GridError {
    /// A grid was asked for with a width or a height of zero.
    ConfigurationError,
    /// A coordinate lies outside the extent of the grid.
    IndexOutOfBounds,
}

} // verus!
