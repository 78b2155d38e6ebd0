use vstd::prelude::*;

verus! {

/// Unwrapping a result that is known to hold a value.
pub trait ResultExt<T, E> {
    /// Whether the result holds a value.
    spec fn spec_is_ok(&self) -> bool;

    /// The value the result holds.
    spec fn spec_value(&self) -> T;

    /// The value the result holds.
    fn or_panic(self) -> (r: T)
        requires
            self.spec_is_ok(),
        ensures
            r == self.spec_value(),
    ;
}

impl<T, E: core::fmt::Debug> ResultExt<T, E> for Result<T, E> {
    open spec fn spec_is_ok(&self) -> bool {
        *self is Ok
    }

    open spec fn spec_value(&self) -> T {
        self->Ok_0
    }

    fn or_panic(self) -> (r: T) {
        self.unwrap()
    }
}

} // verus!
