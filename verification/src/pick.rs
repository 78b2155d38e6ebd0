//! `Pick`: a type made of some of the fields or variants of another.

use vstd::prelude::*;

use crate::error::Result;

verus! {

/// A trait for types that have a pick representation.
pub trait HasPick {
    /// The pick representation of the type.
    type Pick: Pick<Type = Self>;

    /// Converts the type to its pick representation.
    fn pick(&self) -> Result<Self::Pick>;
}

/// A trait for pick representations of types.
pub trait Pick {
    /// The type that the pick representation is for.
    type Type;
}

} // verus!
