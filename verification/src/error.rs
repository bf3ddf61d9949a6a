//! The one way in which a grid operation fails.

use vstd::prelude::*;

verus! {

/// A coordinate that names no cell of the grid it was used on.
#[derive(Debug, Clone, Copy, PartialEq, Eq, Structural)]
pub struct OutOfBounds {
    /// The row that was asked for.
    pub row: usize,
    /// The column that was asked for.
    pub col: usize,
}

} // verus!
