//! What reading a value can end in: the reader's own error, or the
//! violations that validation found.

use vstd::prelude::*;
use crate::validation::error::Errors;

verus! {

/// Why a value could not be had: it could not be read, or it was read and is not valid.
#[derive(Debug, PartialEq, Eq)]
pub enum Error<E> {
    /// The reader's error.
    DeserializeError(E),
    /// The violations that validation found.
    ValidationError(Errors),
}

impl<E> Error<E> {
    /// Whether the value could not be read.
    pub fn is_deserialize_error(&self) -> (yes: bool)
        ensures
            yes == (self is DeserializeError),
    {
        match self {
            Self::DeserializeError(_) => true,
            Self::ValidationError(_) => false,
        }
    }

    /// The reader's error, if the value could not be read.
    pub fn as_deserialize_error(&self) -> (error: Option<&E>)
        ensures
            error == (match self {
                Self::DeserializeError(error) => Some(error),
                Self::ValidationError(_) => None,
            }),
    {
        match self {
            Self::DeserializeError(error) => Some(error),
            Self::ValidationError(_) => None,
        }
    }

    /// Whether the value was read and is not valid.
    pub fn is_validation_errors(&self) -> (yes: bool)
        ensures
            yes == (self is ValidationError),
    {
        match self {
            Self::DeserializeError(_) => false,
            Self::ValidationError(_) => true,
        }
    }

    /// The violations, if the value was read and is not valid.
    pub fn as_validation_errors(&self) -> (errors: Option<&Errors>)
        ensures
            errors == (match self {
                Self::DeserializeError(_) => None,
                Self::ValidationError(errors) => Some(errors),
            }),
    {
        match self {
            Self::DeserializeError(_) => None,
            Self::ValidationError(error) => Some(error),
        }
    }
}

} // verus!
