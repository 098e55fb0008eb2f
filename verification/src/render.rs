//! The errors that serving a page ends in, and turning a missing value into
//! a not-found error.
use vstd::prelude::*;
use crate::error::Error;

verus! {

/// The result of serving a page.
pub type ServeResult<T> = Result<T, ServeError>;

/// Why a page could not be served.
#[derive(Debug)]
pub enum ServeError {
    /// Nothing is there, with an optional message.
    NotFound(Option<String>),
    /// Serving failed.
    InternalServerError(Error),
}

impl vstd::std_specs::convert::FromSpecImpl<Error> for ServeError {
    open spec fn obeys_from_spec() -> bool {
        true
    }

    open spec fn from_spec(error: Error) -> ServeError {
        ServeError::InternalServerError(error)
    }
}

impl From<Error> for ServeError {
    fn from(error: Error) -> (r: ServeError) {
        ServeError::InternalServerError(error)
    }
}

/// Turning a missing value into a not-found error.
pub trait OrNotFound<T> {
    fn or_not_found(self) -> ServeResult<T>;

    fn or_not_found_msg(self, msg: String) -> ServeResult<T>;
}

impl<T> OrNotFound<T> for Option<T> {
    /// The value if present, else not found without a message.
    fn or_not_found(self) -> (r: ServeResult<T>)
        ensures
            match self {
                Some(value) => r == Ok::<T, ServeError>(value),
                None => r matches Err(ServeError::NotFound(None)),
            },
    {
        match self {
            Some(value) => Ok(value),
            None => Err(ServeError::NotFound(None)),
        }
    }

    /// The value if present, else not found with the message.
    fn or_not_found_msg(self, msg: String) -> (r: ServeResult<T>)
        ensures
            match self {
                Some(value) => r == Ok::<T, ServeError>(value),
                None => r matches Err(ServeError::NotFound(Some(m))) && m == msg,
            },
    {
        match self {
            Some(value) => Ok(value),
            None => Err(ServeError::NotFound(Some(msg))),
        }
    }
}

} // verus!
