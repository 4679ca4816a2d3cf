use vstd::prelude::*;

verus! {

/// The error taxonomy that crosses the service boundary.
#[derive(Debug, Clone, Copy, PartialEq, Eq, Structural)]
pub enum Error {
    /// An empty password was submitted; it is never checked.
    EmptyPassword,
    /// Wrong password, wrong or used second factor, or no second factor configured.
    InvalidAuthentication,
    /// A session or user could not be found.
    NotFound,
    /// A restricted session tried to act as its user.
    RestrictedSession,
    /// The user id supplied does not own the session.
    SessionUserId { active_user_id: i64, session_user_id: i64 },
    /// An unexpected backend fault.
    InternalServerError,
}

/// What a failed password check turns into before it leaves the service.
///
/// Every internal failure is reported as `InvalidAuthentication`, except one
/// that already is that kind: it is escalated so that it cannot pass for an
/// ordinary bad credential.
pub open spec fn collapsed(e: Error) -> Error {
    if e == Error::InvalidAuthentication {
        Error::InternalServerError
    } else {
        Error::InvalidAuthentication
    }
}

/// The errors that a login may report to its caller.
pub open spec fn is_login_error(e: Error) -> bool {
    e == Error::EmptyPassword || e == Error::InvalidAuthentication || e
        == Error::InternalServerError
}

/// Maps an internal failure of the password check to the coarse error seen outside.
pub fn collapse_error(e: Error) -> (r: Error)
    ensures
        r == collapsed(e),
        is_login_error(r),
{
    match e {
        Error::InvalidAuthentication => Error::InternalServerError,
        _ => Error::InvalidAuthentication,
    }
}

} // verus!
