use vstd::prelude::*;

verus! {

/// A registered account.
#[derive(Debug)]
pub struct User {
    /// User identifier
    pub id: u128,
    /// User unique name
    pub username: String,
    /// User email
    pub email: String,
    /// Hashed password
    pub password: String,
}

impl Clone for User {
    fn clone(&self) -> (r: Self)
        ensures
            r == *self,
    {
        User {
            id: self.id,
            username: self.username.clone(),
            email: self.email.clone(),
            password: self.password.clone(),
        }
    }
}

impl Default for User {
    fn default() -> (r: Self)
        ensures
            r.id == 0,
            r.username@ == Seq::<char>::empty(),
            r.email@ == Seq::<char>::empty(),
            r.password@ == Seq::<char>::empty(),
    {
        User { id: 0, username: String::new(), email: String::new(), password: String::new() }
    }
}

} // verus!
