//! Errors of recording.

use vstd::prelude::*;

verus! {

/// Why a recording call did nothing.
#[derive(Clone, Copy, Debug, PartialEq, Eq, Structural)]
pub enum RenderError {
    /// `restore` was called with no saved state to go back to.
    StackUnbalance,
    /// The input cannot be drawn: a coordinate, a coefficient or a counter would
    /// leave the range of the numbers, or a mesh names a vertex it does not have.
    InvalidInput,
}

} // verus!
