use vstd::prelude::*;

verus! {

/// The failure kinds that an operation of the backend can surface to its
/// caller. Every fallible operation of the library reports one of these.
#[derive(Clone, Copy, Debug, PartialEq, Eq, Structural)]
pub enum ApiError {
    /// Missing or unresolvable credentials, or an action on a resource the
    /// actor may not touch under the access rules.
    Unauthorized,
    /// Authenticated, but the action is not permitted for this principal.
    Forbidden,
    /// The addressed user, note, file or quiz does not exist (or is hidden).
    NotFound,
    /// A uniqueness rule would be violated (duplicate quiz, taken username).
    Conflict,
    /// The request payload itself is unacceptable.
    BadRequest,
    /// The external completion provider returned nothing usable.
    UpstreamFailure,
}

impl ApiError {
    /// A short, stable name for the error kind.
    pub fn kind_name(&self) -> (r: &'static str)
        ensures
            r@ == match *self {
                ApiError::Unauthorized => "unauthorized"@,
                ApiError::Forbidden => "forbidden"@,
                ApiError::NotFound => "not found"@,
                ApiError::Conflict => "conflict"@,
                ApiError::BadRequest => "bad request"@,
                ApiError::UpstreamFailure => "upstream failure"@,
            },
    {
        match *self {
            ApiError::Unauthorized => "unauthorized",
            ApiError::Forbidden => "forbidden",
            ApiError::NotFound => "not found",
            ApiError::Conflict => "conflict",
            ApiError::BadRequest => "bad request",
            ApiError::UpstreamFailure => "upstream failure",
        }
    }
}

} // verus!
