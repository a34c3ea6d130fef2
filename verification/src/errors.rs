//! The closed set of derivation-time failures. A malformed input shape
//! aborts the whole derivation with exactly one diagnostic and no output.

use vstd::prelude::*;

verus! {

/// Why a derivation was refused. There is no runtime-level taxonomy: a
/// missing required field is prevented structurally by the generated
/// stage types, not reported as a value-level error.
#[derive(PartialEq, Eq, Structural, Clone, Copy, Debug)]
pub enum DeriveError {
    /// The input is not a record-like aggregate (a tagged union, say).
    StructRequired,
    /// The input is a record, but some field has no name.
    NamedFieldsRequired,
}

impl DeriveError {
    /// The diagnostic message for this failure, drawn from a closed set of
    /// two fixed strings.
    pub fn message(&self) -> (r: String)
        ensures
            *self is StructRequired ==> r@ == "BetterBuilder can only be derived on structs."@,
            *self is NamedFieldsRequired ==> r@
                == "BetterBuilder can only be derived on structs with named fields."@,
    {
        match self {
            DeriveError::StructRequired => String::from_str(
                "BetterBuilder can only be derived on structs.",
            ),
            DeriveError::NamedFieldsRequired => String::from_str(
                "BetterBuilder can only be derived on structs with named fields.",
            ),
        }
    }
}

} // verus!
