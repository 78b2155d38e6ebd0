use std::str::FromStr;
use vstd::prelude::*;

verus! {

/// Calls `proc_macro2::TokenStream::from_str` on `text` and tells whether it
/// succeeded.  Nothing is stated of the answer: it comes from `proc_macro2`'s own
/// lexer outside a procedural macro and from the compiler's lexer inside one, and
/// the two can disagree on the same text.
#[verifier::external_body]
pub(crate) fn text_lexes(text: &str) -> (r: bool)
{
    proc_macro2::TokenStream::from_str(text).is_ok()
}

} // verus!
