//! `Required`: a type whose optional fields are all required.

use vstd::prelude::*;

use crate::error::Result;

verus! {

/// A trait for types that have a required representation.
pub trait HasRequired {
    /// The required representation of the type.
    type Required: Required<Type = Self>;

    /// Converts the type to its required representation.
    fn required(&self) -> Result<Self::Required>;
}

/// A trait for required representations of types.
pub trait Required {
    /// The type that the required representation is for.
    type Type;

    /// Converts the required representation to the type it was made from.
    fn type_(&self) -> Self::Type;
}

} // verus!
