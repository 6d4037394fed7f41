use vstd::prelude::*;

verus! {

/// Failures of registration, login and token handling.
#[derive(Clone, Copy, Debug, PartialEq, Eq, Structural)]
pub enum AuthError {
    WrongCredentials,
    MissingCredentials,
    TokenCreation,
    InvalidToken,
    UsernameOccupied,
    EmailExists,
}

impl AuthError {
    /// The text shown to a caller for this failure.
    pub open spec fn message_text(self) -> Seq<char> {
        match self {
            AuthError::WrongCredentials => "Wrong credentials"@,
            AuthError::MissingCredentials => "Missing credentials"@,
            AuthError::TokenCreation => "Token creation error"@,
            AuthError::InvalidToken => "Invalid token"@,
            AuthError::UsernameOccupied => "This username is already occupied!"@,
            AuthError::EmailExists => "This email already exists!"@,
        }
    }

    pub fn message(&self) -> (r: String)
        ensures
            r@ == self.message_text(),
    {
        match self {
            AuthError::WrongCredentials => "Wrong credentials".to_string(),
            AuthError::MissingCredentials => "Missing credentials".to_string(),
            AuthError::TokenCreation => "Token creation error".to_string(),
            AuthError::InvalidToken => "Invalid token".to_string(),
            AuthError::UsernameOccupied => "This username is already occupied!".to_string(),
            AuthError::EmailExists => "This email already exists!".to_string(),
        }
    }
}

} // verus!
