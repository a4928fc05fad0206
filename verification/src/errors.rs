//! The error taxonomy of the exposed surface, with the HTTP status
//! each kind is reported under. A cache-store failure never appears
//! here: caching is an optimization, and callers fall through to the
//! row store instead of failing the request.

use vstd::prelude::*;

verus! {

/// Why a request failed.
#[derive(Debug, Clone, Copy, PartialEq, Eq)]
pub enum ErrorKind {
    /// Missing, invalid or expired credential.
    Unauthorized,
    /// Table or item absent.
    NotFound,
    /// The table exists but the policy excludes it, or its type is not
    /// exposed.
    Forbidden,
    /// A required query parameter is missing.
    InvalidArgument,
    /// A row-store call failed; fatal to the request.
    UpstreamFailure,
    /// The write service cannot be reached.
    WriteServiceUnavailable,
    /// Forwarding a write to the write service failed.
    WriteForwardFailed,
    /// No exposed operation matches the path.
    RouteNotFound,
    /// The method is not accepted on this surface.
    MethodNotAllowed,
}

/// The status code an error kind is reported under.
pub open spec fn spec_status_code(kind: ErrorKind) -> u16 {
    match kind {
        ErrorKind::Unauthorized => 401,
        ErrorKind::NotFound => 404,
        ErrorKind::Forbidden => 403,
        ErrorKind::InvalidArgument => 400,
        ErrorKind::UpstreamFailure => 500,
        ErrorKind::WriteServiceUnavailable => 503,
        ErrorKind::WriteForwardFailed => 502,
        ErrorKind::RouteNotFound => 404,
        ErrorKind::MethodNotAllowed => 405,
    }
}

/// Maps an error kind to its status code.
pub fn status_code(kind: ErrorKind) -> (r: u16)
    ensures
        r == spec_status_code(kind),
{
    match kind {
        ErrorKind::Unauthorized => 401,
        ErrorKind::NotFound => 404,
        ErrorKind::Forbidden => 403,
        ErrorKind::InvalidArgument => 400,
        ErrorKind::UpstreamFailure => 500,
        ErrorKind::WriteServiceUnavailable => 503,
        ErrorKind::WriteForwardFailed => 502,
        ErrorKind::RouteNotFound => 404,
        ErrorKind::MethodNotAllowed => 405,
    }
}

} // verus!
