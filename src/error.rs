//! Why a derivation was refused.

use vstd::prelude::*;
use crate::attr::AttributeError;

verus! {

/// A type shape that the derivation cannot serve; `field` is the index of the
/// offending field.
#[derive(PartialEq, Eq, Structural, Clone, Copy, Debug)]
pub enum ShapeError {
    /// `each` on a field whose type is not a repeated value.
    EachOnNonSequence { field: usize },
    /// An optional or repeated type written without its type argument.
    ExpectedGenericArgument { field: usize },
    /// The declaration is not a struct with named fields.
    UnsupportedInputKind,
}

#[derive(PartialEq, Eq, Structural, Clone, Copy, Debug)]
pub enum DerivationError {
    Attribute(AttributeError),
    Shape(ShapeError),
}

} // verus!
