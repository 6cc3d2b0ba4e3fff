//! The ways a request can be refused, and the HTTP status each one answers.

use vstd::prelude::*;

verus! {

/// Why a request was refused.
#[derive(Debug, Clone, Copy, PartialEq, Eq, Structural)]
pub enum ApiError {
    /// The request's own values are unusable: a blank address, a blank
    /// connector or dialer type, or only one of username and password.
    BadRequest,
    /// An update without the expected bearer token.
    Unauthorized,
    /// The channel does not exist or holds an empty address.
    NotFound,
    /// The new state could not be written to the data file.
    InternalServerError,
}

/// The HTTP status code of each refusal.
pub open spec fn status_of(e: ApiError) -> u16 {
    match e {
        ApiError::BadRequest => 400,
        ApiError::Unauthorized => 401,
        ApiError::NotFound => 404,
        ApiError::InternalServerError => 500,
    }
}

impl ApiError {
    /// The HTTP status code that answers this refusal.
    pub fn status_code(&self) -> (r: u16)
        ensures
            r == status_of(*self),
    {
        match self {
            ApiError::BadRequest => 400,
            ApiError::Unauthorized => 401,
            ApiError::NotFound => 404,
            ApiError::InternalServerError => 500,
        }
    }
}

/// Why a persisted state could not be loaded.
#[derive(Debug, Clone, Copy, PartialEq, Eq, Structural)]
pub enum LoadError {
    /// The data file was written in a format version this library does not
    /// read; the version found is kept.
    UnsupportedVersion(u8),
}

} // verus!
