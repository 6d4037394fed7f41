use vstd::prelude::*;

verus! {

/// A top-level container of notes, owned by one user.
#[derive(Debug)]
pub struct Workspace {
    /// Identifier
    pub id: u128,
    /// Workspace title
    pub title: String,
    /// Owner id
    pub user_id: u128,
}

impl Clone for Workspace {
    fn clone(&self) -> (r: Self)
        ensures
            r == *self,
    {
        Workspace { id: self.id, title: self.title.clone(), user_id: self.user_id }
    }
}

impl Default for Workspace {
    fn default() -> (r: Self)
        ensures
            r.id == 0,
            r.title@ == Seq::<char>::empty(),
            r.user_id == 0,
    {
        Workspace { id: 0, title: String::new(), user_id: 0 }
    }
}

} // verus!
