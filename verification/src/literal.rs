//! String literals among tokens.

use vstd::prelude::*;

use crate::text::{is_quoted, quoted, strip_ends, strip_first_and_last};
use crate::tokens::Literal;

verus! {

/// Queries on a literal by its source text.
pub trait LiteralExt {
    /// The literal's source text.
    spec fn spec_text(&self) -> Seq<char>;

    /// The literal's source text.
    fn literal_text(&self) -> (r: &str)
        ensures
            r@ == self.spec_text(),
    ;

    /// Whether the literal is a string literal: its text starts and ends with `"`.
    fn is_str(&self) -> (r: bool)
        ensures
            r == is_quoted(self.spec_text()),
    ;

    /// The characters between the quotes of a string literal; `None` for any
    /// other literal.
    fn as_string(&self) -> (r: Option<String>)
        requires
            self.spec_text() != seq!['"'],
        ensures
            is_quoted(self.spec_text()) ==> (r matches Some(s) && s@ == strip_ends(self.spec_text())),
            !is_quoted(self.spec_text()) ==> r is None,
    {
        if self.is_str() {
            let t = self.literal_text();
            proof {
                if t@.len() == 1 {
                    assert(t@ =~= seq!['"']);
                }
            }
            Some(strip_first_and_last(t))
        } else {
            None
        }
    }
}

impl LiteralExt for Literal {
    open spec fn spec_text(&self) -> Seq<char> {
        self.text@
    }

    fn literal_text(&self) -> (r: &str) {
        self.text.as_str()
    }

    fn is_str(&self) -> (r: bool) {
        quoted(self.text.as_str())
    }
}

} // verus!
