//! String unions: enums whose variants stand for strings.

use vstd::prelude::*;

use crate::error::Result;

verus! {

/// A trait for enums whose variants stand for strings.
pub trait StringUnion: Sized {
    /// Returns all variants as `Vec<&'static str>`.
    fn strings() -> Vec<&'static str>;

    /// Returns all variants as `Vec<Self>`.
    fn variants() -> Vec<Self>;

    /// Returns the string representation of the variant.
    fn as_str(&self) -> &'static str;

    /// Tries to convert a string to a `Self`.
    fn try_from_str(value: &str) -> Result<Self>;
}

} // verus!
