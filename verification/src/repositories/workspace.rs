use crate::entities::workspace::Workspace;
use crate::errors::CoreError;
use crate::repositories::{lookup, replaced};
use vstd::prelude::*;

verus! {

/// `id` is stored and owned by the user `user_id`.
pub open spec fn owned_by(rows: Map<u128, Workspace>, user_id: u128, id: u128) -> bool {
    rows.contains_key(id) && rows[id].user_id == user_id
}

/// The identifiers of the workspaces that `user_id` owns.
pub open spec fn owned_ids(rows: Map<u128, Workspace>, user_id: u128) -> Set<u128> {
    Set::new(|id: u128| owned_by(rows, user_id, id))
}

/// Some element of `s` carries the identifier `id`.
pub open spec fn workspace_occurs(s: Seq<Workspace>, id: u128) -> bool {
    exists|i: int| 0 <= i < s.len() && (#[trigger] s[i]).id == id
}

/// `s` is a listing of what `user_id` owns: exactly the stored workspaces
/// of that user, each once, in the store's own order.
pub open spec fn lists_owned(rows: Map<u128, Workspace>, user_id: u128, s: Seq<Workspace>) -> bool {
    &&& forall|i: int|
        0 <= i < s.len() ==> owned_by(rows, user_id, (#[trigger] s[i]).id) && rows[s[i].id] == s[i]
    &&& forall|id: u128| #[trigger] owned_by(rows, user_id, id) ==> workspace_occurs(s, id)
    &&& forall|i: int, j: int|
        0 <= i < j < s.len() ==> (#[trigger] s[i]).id != (#[trigger] s[j]).id
}

/// The test a workspace passes when the user `user_id` owns it.
pub open spec fn of_owner(user_id: u128) -> spec_fn(Workspace) -> bool {
    |w: Workspace| w.user_id == user_id
}

/// Storage of workspaces.
pub trait WorkspaceRepo {
    /// The stored workspaces by identifier: the ghost model that the contracts
    /// below speak of. An implementation that is verified states its own.
    open spec fn rows(&self) -> Map<u128, Workspace> {
        Map::empty()
    }

    /// The workspaces of a user in the order in which the store answers for
    /// that user: the ghost model of the store's own order. A new workspace
    /// comes last.
    open spec fn listing(&self, user_id: u128) -> Seq<Workspace> {
        Seq::empty()
    }

    fn create(&mut self, data: Workspace) -> (r: Result<(), CoreError>)
        ensures
            r matches Err(e) ==> e is Database,
            r is Ok ==> forall|u: u128| #[trigger]
                final(self).listing(u) == if u == data.user_id {
                    old(self).listing(u).push(data)
                } else {
                    old(self).listing(u)
                },
            r is Ok ==> !old(self).rows().contains_key(data.id),
            r is Ok ==> final(self).rows() == old(self).rows().insert(data.id, data),
    ;

    fn find_one(&self, id: u128) -> (r: Result<Option<Workspace>, CoreError>)
        ensures
            r matches Err(e) ==> e is Database,
            r matches Ok(found) ==> found == lookup(self.rows(), id) && (found matches Some(w)
                ==> w.id == id),
    ;

    fn find_all_by_user_id(&self, user_id: u128) -> (r: Result<Vec<Workspace>, CoreError>)
        ensures
            r matches Err(e) ==> e is Database,
            r matches Ok(workspaces) ==> workspaces@ == self.listing(user_id),
            r matches Ok(workspaces) ==> lists_owned(self.rows(), user_id, workspaces@),
    ;

    fn delete(&mut self, id: u128) -> (r: Result<(), CoreError>)
        ensures
            r matches Err(e) ==> e is Database,
            r is Ok ==> final(self).rows() == old(self).rows().remove(id),
    ;

    fn save(&mut self, data: Workspace) -> (r: Result<(), CoreError>)
        ensures
            r matches Err(e) ==> e is Database,
            r is Ok ==> final(self).rows() == replaced(old(self).rows(), data.id, data),
    ;
}

} // verus!
