use crate::entities::user::User;
use vstd::prelude::*;

verus! {

/// A user as callers see it: the password digest never leaves the service.
#[derive(Debug)]
pub struct UserDTO {
    pub id: u128,
    pub username: String,
    pub email: String,
}

impl UserDTO {
    /// The projection of a stored record.
    pub open spec fn of(value: User) -> UserDTO {
        UserDTO { id: value.id, username: value.username, email: value.email }
    }
}

impl Clone for UserDTO {
    fn clone(&self) -> (r: Self)
        ensures
            r == *self,
    {
        UserDTO { id: self.id, username: self.username.clone(), email: self.email.clone() }
    }
}

#[derive(Debug)]
pub struct UserCreateDTO {
    pub username: String,
    pub email: String,
    pub password: String,
}

impl Clone for UserCreateDTO {
    fn clone(&self) -> (r: Self)
        ensures
            r == *self,
    {
        UserCreateDTO {
            username: self.username.clone(),
            email: self.email.clone(),
            password: self.password.clone(),
        }
    }
}

#[derive(Debug)]
pub struct UserLoginUsernameDTO {
    pub username: String,
    pub password: String,
}

impl Clone for UserLoginUsernameDTO {
    fn clone(&self) -> (r: Self)
        ensures
            r == *self,
    {
        UserLoginUsernameDTO { username: self.username.clone(), password: self.password.clone() }
    }
}

#[derive(Debug)]
pub struct UserLoginEmailDTO {
    pub email: String,
    pub password: String,
}

impl Clone for UserLoginEmailDTO {
    fn clone(&self) -> (r: Self)
        ensures
            r == *self,
    {
        UserLoginEmailDTO { email: self.email.clone(), password: self.password.clone() }
    }
}

impl From<User> for UserDTO {
    fn from(value: User) -> (r: Self) {
        UserDTO { id: value.id, username: value.username, email: value.email }
    }
}

impl vstd::std_specs::convert::FromSpecImpl<User> for UserDTO {
    open spec fn obeys_from_spec() -> bool {
        true
    }

    open spec fn from_spec(value: User) -> Self {
        UserDTO::of(value)
    }
}

} // verus!
