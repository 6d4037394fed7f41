use crate::entities::user::User;
use crate::errors::CoreError;
use crate::repositories::{lookup, replaced};
use vstd::prelude::*;

verus! {

/// Some stored user bears the name `username`.
pub open spec fn username_taken(rows: Map<u128, User>, username: Seq<char>) -> bool {
    exists|id: u128| rows.contains_key(id) && (#[trigger] rows[id]).username@ == username
}

/// Some stored user has the address `email`.
pub open spec fn email_taken(rows: Map<u128, User>, email: Seq<char>) -> bool {
    exists|id: u128| rows.contains_key(id) && (#[trigger] rows[id]).email@ == email
}

/// `found` answers a search for a stored user that satisfies `wanted`: a
/// stored user that does, or nothing when no stored user does.
pub open spec fn answers(rows: Map<u128, User>, wanted: spec_fn(User) -> bool, found: Option<User>) -> bool {
    match found {
        Some(u) => rows.contains_key(u.id) && rows[u.id] == u && wanted(u),
        None => forall|id: u128| rows.contains_key(id) ==> !wanted(#[trigger] rows[id]),
    }
}

/// Some element of `s` carries the identifier `id`.
pub open spec fn user_occurs(s: Seq<User>, id: u128) -> bool {
    exists|i: int| 0 <= i < s.len() && (#[trigger] s[i]).id == id
}

/// `s` is a listing of the store: exactly the stored users, each once, in
/// the store's own order.
pub open spec fn lists_users(rows: Map<u128, User>, s: Seq<User>) -> bool {
    &&& forall|i: int|
        0 <= i < s.len() ==> rows.contains_key((#[trigger] s[i]).id) && rows[s[i].id] == s[i]
    &&& forall|id: u128| #[trigger] rows.contains_key(id) ==> user_occurs(s, id)
    &&& forall|i: int, j: int|
        0 <= i < j < s.len() ==> (#[trigger] s[i]).id != (#[trigger] s[j]).id
}

/// Storage of users.
pub trait UserRepo {
    /// The stored users by identifier: the ghost model that the contracts
    /// below speak of. An implementation that is verified states its own.
    open spec fn rows(&self) -> Map<u128, User> {
        Map::empty()
    }

    fn create(&mut self, data: User) -> (r: Result<(), CoreError>)
        ensures
            r matches Err(e) ==> e is Database,
            r is Ok ==> !old(self).rows().contains_key(data.id),
            r is Ok ==> final(self).rows() == old(self).rows().insert(data.id, data),
    ;

    fn find_one(&self, id: u128) -> (r: Result<Option<User>, CoreError>)
        ensures
            r matches Err(e) ==> e is Database,
            r matches Ok(found) ==> found == lookup(self.rows(), id) && (found matches Some(u)
                ==> u.id == id),
    ;

    fn find_one_by_username(&self, username: String) -> (r: Result<Option<User>, CoreError>)
        ensures
            r matches Err(e) ==> e is Database,
            r matches Ok(found) ==> answers(
                self.rows(),
                |u: User| u.username@ == username@,
                found,
            ),
    ;

    fn find_one_by_email(&self, email: String) -> (r: Result<Option<User>, CoreError>)
        ensures
            r matches Err(e) ==> e is Database,
            r matches Ok(found) ==> answers(self.rows(), |u: User| u.email@ == email@, found),
    ;

    fn find_all(&self) -> (r: Result<Vec<User>, CoreError>)
        ensures
            r matches Err(e) ==> e is Database,
            r matches Ok(users) ==> lists_users(self.rows(), users@),
    ;

    fn delete(&mut self, id: u128) -> (r: Result<(), CoreError>)
        ensures
            r matches Err(e) ==> e is Database,
            r is Ok ==> final(self).rows() == old(self).rows().remove(id),
    ;

    fn save(&mut self, data: User) -> (r: Result<(), CoreError>)
        ensures
            r matches Err(e) ==> e is Database,
            r is Ok ==> final(self).rows() == replaced(old(self).rows(), data.id, data),
    ;
}

} // verus!
