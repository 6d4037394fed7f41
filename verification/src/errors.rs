use crate::auth::errors::AuthError;
use vstd::prelude::*;

verus! {

/// Every way a service call can fail.
#[derive(Clone, Debug, PartialEq, Eq)]
pub enum CoreError {
    /// The backing store failed; the payload is its own description.
    Database(String),
    AuthError(AuthError),
    ServerError,
    NotFound,
    TooManyWorkspaces,
    AccessDenied,
    BlockTypeMismatch,
}

impl From<AuthError> for CoreError {
    fn from(value: AuthError) -> (r: Self) {
        CoreError::AuthError(value)
    }
}

impl vstd::std_specs::convert::FromSpecImpl<AuthError> for CoreError {
    open spec fn obeys_from_spec() -> bool {
        true
    }

    open spec fn from_spec(value: AuthError) -> Self {
        CoreError::AuthError(value)
    }
}

impl CoreError {
    /// The text shown to a caller for this failure. A store failure never
    /// exposes its own description.
    pub open spec fn message_text(self) -> Seq<char> {
        match self {
            CoreError::Database(_) => "Server error"@,
            CoreError::AuthError(e) => e.message_text(),
            CoreError::ServerError => "Server error"@,
            CoreError::NotFound => "Not found"@,
            CoreError::TooManyWorkspaces => "User have reached the limit of create workspaces (3)"@,
            CoreError::AccessDenied => "You don't have access to do it"@,
            CoreError::BlockTypeMismatch => "Block type does not match its content"@,
        }
    }

    pub fn message(&self) -> (r: String)
        ensures
            r@ == self.message_text(),
    {
        match self {
            CoreError::Database(_) => "Server error".to_string(),
            CoreError::AuthError(e) => e.message(),
            CoreError::ServerError => "Server error".to_string(),
            CoreError::NotFound => "Not found".to_string(),
            CoreError::TooManyWorkspaces => "User have reached the limit of create workspaces (3)".to_string(),
            CoreError::AccessDenied => "You don't have access to do it".to_string(),
            CoreError::BlockTypeMismatch => "Block type does not match its content".to_string(),
        }
    }

    /// The status code the transport boundary answers with.
    pub open spec fn status(self) -> int {
        match self {
            CoreError::Database(_) => 500,
            CoreError::AuthError(AuthError::WrongCredentials) => 401,
            CoreError::AuthError(AuthError::MissingCredentials) => 401,
            CoreError::AuthError(AuthError::TokenCreation) => 500,
            CoreError::AuthError(AuthError::InvalidToken) => 400,
            CoreError::AuthError(AuthError::UsernameOccupied) => 403,
            CoreError::AuthError(AuthError::EmailExists) => 403,
            CoreError::ServerError => 500,
            CoreError::NotFound => 404,
            CoreError::TooManyWorkspaces => 403,
            CoreError::AccessDenied => 403,
            CoreError::BlockTypeMismatch => 400,
        }
    }

    pub fn status_code(&self) -> (r: u16)
        ensures
            r == self.status(),
    {
        match self {
            CoreError::Database(_) => 500,
            CoreError::AuthError(e) => match e {
                AuthError::WrongCredentials => 401,
                AuthError::MissingCredentials => 401,
                AuthError::TokenCreation => 500,
                AuthError::InvalidToken => 400,
                AuthError::UsernameOccupied => 403,
                AuthError::EmailExists => 403,
            },
            CoreError::ServerError => 500,
            CoreError::NotFound => 404,
            CoreError::TooManyWorkspaces => 403,
            CoreError::AccessDenied => 403,
            CoreError::BlockTypeMismatch => 400,
        }
    }
}

} // verus!
