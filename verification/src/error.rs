//! Errors surfaced by the value-cell layer.

use vstd::prelude::*;

verus! {

/// Error raised by a fallible cell operation.
#[derive(Clone, Copy, Debug, PartialEq, Eq, Structural)]
pub enum Error {
    /// A value being decomposed into narrower native slots does not fit.
    Overflow,
    /// A cell was asked for a textual rendering its wire type does not define.
    Length,
}

impl Error {
    /// A short text for the error, in place of a `Display` impl.
    pub fn text(&self) -> (r: &'static str)
        ensures
            *self is Overflow ==> r@ == "value does not fit in the native field"@,
            *self is Length ==> r@ == "no textual rendering for this wire type"@,
    {
        match self {
            Error::Overflow => "value does not fit in the native field",
            Error::Length => "no textual rendering for this wire type",
        }
    }
}

} // verus!
