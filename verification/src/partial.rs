//! `Partial`: a type whose fields are all optional.

use vstd::prelude::*;

use crate::error::Result;

verus! {

/// A trait for types that have a partial representation.
pub trait HasPartial {
    /// The partial representation of the type.
    type Partial: Partial<Type = Self>;

    /// Converts the type to its partial representation.
    fn partial(&self) -> Self::Partial;
}

/// A trait for partial representations of types.
pub trait Partial {
    /// The type that the partial representation is for.
    type Type;

    /// Converts the partial representation to the type it was made from.
    fn type_(&self) -> Result<Self::Type>;
}

/// The position of the first `false` among `present`, where there is one: the
/// first field that is missing when a partial value is made whole, in the order
/// of the fields.
pub fn first_missing(present: &Vec<bool>) -> (r: Option<usize>)
    ensures
        r is None <==> forall|i: int| 0 <= i < present@.len() ==> #[trigger] present@[i],
        r matches Some(i) ==> i < present@.len() && !present@[i as int]
            && forall|j: int| 0 <= j < i ==> #[trigger] present@[j],
{
    let mut i: usize = 0;
    while i < present.len()
        invariant
            0 <= i <= present@.len(),
            forall|j: int| 0 <= j < i ==> #[trigger] present@[j],
        decreases present@.len() - i,
    {
        if !present[i] {
            return Some(i);
        }
        i = i + 1;
    }
    None
}

} // verus!
