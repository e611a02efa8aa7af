//! The closed error taxonomy every other component reports into, and the
//! translation rules at the access-layer boundary.
//!
//! Errors are terminal, one-shot classifications. Validation and
//! identifier-parsing failures are classified before any store call;
//! store-level failures are re-classified once, at the boundary, and never
//! leak a driver-native error type to callers. Client-fixable failures
//! (`BadRequest`, `NotFound`) carry a short, safe detail; infrastructure
//! failures (`StoreFailure`, `SerializationFailure`) keep their detail for
//! the log and show the client nothing.

use vstd::prelude::*;

verus! {

/// A classified failure. Each variant carries an optional human-readable
/// detail string.
#[derive(Debug)]
pub enum Error {
    /// No matching resource.
    NotFound { detail: Option<String> },
    /// A client-fixable input problem: failed validation or a malformed
    /// document identifier.
    BadRequest { detail: Option<String> },
    /// Reserved for uniqueness-constraint violations.
    Conflict { detail: Option<String> },
    /// An infrastructure-level store failure, not client-fixable.
    StoreFailure { detail: Option<String> },
    /// An output document did not match the expected response shape;
    /// treated as an internal defect.
    SerializationFailure { detail: Option<String> },
}

/// The HTTP-style status class each classification renders as.
pub open spec fn spec_status_code(e: Error) -> u16 {
    match e {
        Error::NotFound { .. } => 404,
        Error::BadRequest { .. } => 400,
        Error::Conflict { .. } => 409,
        Error::StoreFailure { .. } => 500,
        Error::SerializationFailure { .. } => 500,
    }
}

/// Whether a classification may show its detail string to the client.
/// Infrastructure failures may not: their detail is for the log alone.
pub open spec fn spec_detail_is_safe(e: Error) -> bool {
    match e {
        Error::NotFound { .. } => true,
        Error::BadRequest { .. } => true,
        Error::Conflict { .. } => true,
        Error::StoreFailure { .. } => false,
        Error::SerializationFailure { .. } => false,
    }
}

/// The detail string an error carries, whoever it is shown to.
pub open spec fn spec_detail(e: Error) -> Option<Seq<char>> {
    match e {
        Error::NotFound { detail } => match detail {
            Some(d) => Some(d@),
            None => None,
        },
        Error::BadRequest { detail } => match detail {
            Some(d) => Some(d@),
            None => None,
        },
        Error::Conflict { detail } => match detail {
            Some(d) => Some(d@),
            None => None,
        },
        Error::StoreFailure { detail } => match detail {
            Some(d) => Some(d@),
            None => None,
        },
        Error::SerializationFailure { detail } => match detail {
            Some(d) => Some(d@),
            None => None,
        },
    }
}

impl Error {
    /// A `BadRequest` with a short, safe message.
    pub fn bad_request(msg: &str) -> (r: Error)
        ensures
            r matches Error::BadRequest { detail } && detail matches Some(d) && d@ == msg@,
    {
        Error::BadRequest { detail: Some(msg.to_owned()) }
    }

    /// A `NotFound` without detail.
    pub fn not_found() -> (r: Error)
        ensures
            r matches Error::NotFound { detail: None },
    {
        Error::NotFound { detail: None }
    }

    /// Classifies a store-level transport or driver failure. The detail is
    /// kept for the log; it is never shown to the client.
    pub fn store_failure(detail: String) -> (r: Error)
        ensures
            r matches Error::StoreFailure { detail: d } && d matches Some(s) && s@ == detail@,
    {
        Error::StoreFailure { detail: Some(detail) }
    }

    /// Classifies a response-shape mismatch on an output document.
    pub fn serialization_failure(detail: String) -> (r: Error)
        ensures
            r matches Error::SerializationFailure { detail: d } && d matches Some(s) && s@
                == detail@,
    {
        Error::SerializationFailure { detail: Some(detail) }
    }

    /// The HTTP-style status code this classification renders as: 404 for
    /// `NotFound`, 400 for `BadRequest`, 409 for `Conflict`, 500 for the
    /// infrastructure failures.
    pub fn status_code(&self) -> (c: u16)
        ensures
            c == spec_status_code(*self),
    {
        match self {
            Error::NotFound { .. } => 404,
            Error::BadRequest { .. } => 400,
            Error::Conflict { .. } => 409,
            Error::StoreFailure { .. } => 500,
            Error::SerializationFailure { .. } => 500,
        }
    }

    /// The detail a client is allowed to see: the carried detail for
    /// client-fixable classifications, nothing for infrastructure failures,
    /// whose detail stays in the log.
    pub fn client_detail(&self) -> (r: Option<String>)
        ensures
            spec_detail_is_safe(*self) ==> (match r {
                Some(d) => spec_detail(*self) == Some(d@),
                None => spec_detail(*self) is None,
            }),
            !spec_detail_is_safe(*self) ==> r is None,
    {
        match self {
            Error::NotFound { detail } => clone_detail(detail),
            Error::BadRequest { detail } => clone_detail(detail),
            Error::Conflict { detail } => clone_detail(detail),
            Error::StoreFailure { .. } => None,
            Error::SerializationFailure { .. } => None,
        }
    }
}

fn clone_detail(detail: &Option<String>) -> (r: Option<String>)
    ensures
        match r {
            Some(d) => detail matches Some(orig) && orig@ == d@,
            None => detail is None,
        },
{
    match detail {
        Some(d) => Some(d.clone()),
        None => None,
    }
}

} // verus!
