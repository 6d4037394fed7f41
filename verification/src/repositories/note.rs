use crate::entities::note::Note;
use crate::errors::CoreError;
use crate::repositories::{lookup, replaced};
use vstd::prelude::*;

verus! {

/// `id` is stored and belongs to the workspace `workspace_id`.
pub open spec fn in_workspace(rows: Map<u128, Note>, workspace_id: u128, id: u128) -> bool {
    rows.contains_key(id) && rows[id].workspace_id == workspace_id
}

/// Some element of `s` carries the identifier `id`.
pub open spec fn note_occurs(s: Seq<Note>, id: u128) -> bool {
    exists|i: int| 0 <= i < s.len() && (#[trigger] s[i]).id == id
}

/// `s` is a listing of the workspace `workspace_id`: exactly the stored
/// notes of that workspace, each once, in the store's own order.
pub open spec fn lists_workspace(rows: Map<u128, Note>, workspace_id: u128, s: Seq<Note>) -> bool {
    &&& forall|i: int|
        0 <= i < s.len() ==> in_workspace(rows, workspace_id, (#[trigger] s[i]).id) && rows[s[i].id]
            == s[i]
    &&& forall|id: u128| #[trigger] in_workspace(rows, workspace_id, id) ==> note_occurs(s, id)
    &&& forall|i: int, j: int|
        0 <= i < j < s.len() ==> (#[trigger] s[i]).id != (#[trigger] s[j]).id
}

/// The test a note passes when it belongs to the workspace `workspace_id`.
pub open spec fn of_workspace(workspace_id: u128) -> spec_fn(Note) -> bool {
    |n: Note| n.workspace_id == workspace_id
}

/// Storage of notes.
pub trait NoteRepo {
    /// The stored notes by identifier: the ghost model that the contracts
    /// below speak of. An implementation that is verified states its own.
    open spec fn rows(&self) -> Map<u128, Note> {
        Map::empty()
    }

    /// The notes of a workspace in the order in which the store answers for
    /// it: the ghost model of the store's own order. A new note comes last.
    open spec fn listing(&self, workspace_id: u128) -> Seq<Note> {
        Seq::empty()
    }

    fn create(&mut self, data: Note) -> (r: Result<(), CoreError>)
        ensures
            r matches Err(e) ==> e is Database,
            r is Ok ==> forall|w: u128| #[trigger]
                final(self).listing(w) == if w == data.workspace_id {
                    old(self).listing(w).push(data)
                } else {
                    old(self).listing(w)
                },
            r is Ok ==> !old(self).rows().contains_key(data.id),
            r is Ok ==> final(self).rows() == old(self).rows().insert(data.id, data),
    ;

    fn find_one(&self, id: u128) -> (r: Result<Option<Note>, CoreError>)
        ensures
            r matches Err(e) ==> e is Database,
            r matches Ok(found) ==> found == lookup(self.rows(), id) && (found matches Some(n)
                ==> n.id == id),
    ;

    fn find_all_in_workspace(&self, workspace_id: u128) -> (r: Result<Vec<Note>, CoreError>)
        ensures
            r matches Err(e) ==> e is Database,
            r matches Ok(notes) ==> notes@ == self.listing(workspace_id),
            r matches Ok(notes) ==> lists_workspace(self.rows(), workspace_id, notes@),
    ;

    fn delete(&mut self, id: u128) -> (r: Result<(), CoreError>)
        ensures
            r matches Err(e) ==> e is Database,
            r is Ok ==> final(self).rows() == old(self).rows().remove(id),
    ;

    fn save(&mut self, data: Note) -> (r: Result<(), CoreError>)
        ensures
            r matches Err(e) ==> e is Database,
            r is Ok ==> final(self).rows() == replaced(old(self).rows(), data.id, data),
    ;
}

} // verus!
