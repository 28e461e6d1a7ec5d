//! The ways in which a lookup or a conversion can fail.
use vstd::prelude::*;

verus! {

#[derive(Debug)]
pub enum ParameterError {
    /// A required key is absent, or holds a value of another type.
    KeyNotFound(String),
    /// A stored value could not be converted; the text says why.
    ConversionFailed(String),
    /// A value of one type was found where another was expected.
    TypeMismatch { expected: &'static str, actual: &'static str },
}

} // verus!
