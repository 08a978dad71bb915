//! The failures of substitution.

use vstd::prelude::*;

verus! {

/// Why a parameter could not be substituted.
#[derive(Clone, Copy, Debug, PartialEq, Eq)]
pub enum ErrorKind {
    /// The parameter map binds no value to the name.
    MissingParameter,
    /// The value is an array with an element that is no number.
    InvalidListParameter,
    /// The value is an object, or an array where only a scalar can stand.
    UnsupportedComplexParameter,
}

/// A failure of substitution: its kind and the parameter at fault.
#[derive(Clone, Debug, PartialEq, Eq)]
pub struct SubstitutionError {
    pub kind: ErrorKind,
    pub parameter: String,
}

/// A failure with the parameter's name as a sequence of characters.
pub struct Failure {
    pub kind: ErrorKind,
    pub parameter: Seq<char>,
}

impl View for SubstitutionError {
    type V = Failure;

    open spec fn view(&self) -> Failure {
        Failure { kind: self.kind, parameter: self.parameter@ }
    }
}

} // verus!
