//! The builder error kinds of the manifold pipeline.

use vstd::prelude::*;

verus! {

/// A required field of the manifold builder that was not supplied.
pub enum ManifoldError {
    Field1Missing,
    Field2Missing,
}

impl ManifoldError {
    /// The human-readable description of the error.
    pub fn message(&self) -> (r: &'static str)
        ensures
            self is Field1Missing ==> r@ == "field1 is required"@,
            self is Field2Missing ==> r@ == "field2 is required"@,
    {
        match self {
            ManifoldError::Field1Missing => "field1 is required",
            ManifoldError::Field2Missing => "field2 is required",
        }
    }
}

} // verus!
