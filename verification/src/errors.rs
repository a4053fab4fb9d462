//! Uniform error taxonomy for every core operation.

use vstd::prelude::*;
use vstd::string::*;

verus! {

/// The only failure kinds a core operation may surface. Backend detail is
/// never carried here: callers see the kind and a fixed message.
#[derive(Clone, Copy, Debug, PartialEq, Eq, Structural)]
pub enum EmsError {
    /// Missing, malformed, invalid or expired bearer token.
    Unauthorized,
    /// Registration with an email that is already taken.
    DuplicateAccount,
    /// Login mismatch; deliberately identical for unknown email and wrong
    /// password.
    InvalidCredentials,
    /// The addressed employee, history entry or payslip does not exist.
    NotFound,
    /// A disallowed payslip extension or an absent file part.
    BadRequest,
    /// Store, filesystem or token-codec failure, surfaced opaquely.
    InternalError,
}

impl EmsError {
    /// The caller-visible message for this error kind.
    pub open spec fn message_spec(self) -> Seq<char> {
        match self {
            EmsError::Unauthorized => "Invalid or missing token"@,
            EmsError::DuplicateAccount => "Admin with this email already exists"@,
            EmsError::InvalidCredentials => "Invalid email or password"@,
            EmsError::NotFound => "Resource not found"@,
            EmsError::BadRequest => "Bad request"@,
            EmsError::InternalError => "Internal server error"@,
        }
    }

    /// Fixed message text; equal kinds always yield equal messages.
    pub fn message(&self) -> (r: String)
        ensures
            r@ == self.message_spec(),
    {
        match self {
            EmsError::Unauthorized => String::from_str("Invalid or missing token"),
            EmsError::DuplicateAccount => String::from_str("Admin with this email already exists"),
            EmsError::InvalidCredentials => String::from_str("Invalid email or password"),
            EmsError::NotFound => String::from_str("Resource not found"),
            EmsError::BadRequest => String::from_str("Bad request"),
            EmsError::InternalError => String::from_str("Internal server error"),
        }
    }
}

} // verus!
