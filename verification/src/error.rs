//! The ways in which an operation on a field can fail.

use vstd::prelude::*;

verus! {

/// Why an operation was refused. A refused operation changes nothing.
#[derive(Clone, Copy, Debug, PartialEq, Eq, Structural)]
pub enum FieldError {
    /// A cell, a window or a neighbour of a sample lies outside its array.
    OutOfBounds,
    /// A coordinate has no counterpart in the type it had to be turned into.
    NumericConversionFailure,
    /// Two arrays that must agree in shape do not.
    ShapeMismatch,
}

} // verus!
