use crate::entities::workspace::Workspace;
use vstd::prelude::*;

verus! {

/// A workspace as callers see it.
#[derive(Debug)]
pub struct WorkspaceDTO {
    pub id: u128,
    pub title: String,
    pub user_id: u128,
}

impl WorkspaceDTO {
    /// The projection of a stored record.
    pub open spec fn of(value: Workspace) -> WorkspaceDTO {
        WorkspaceDTO { id: value.id, title: value.title, user_id: value.user_id }
    }
}

impl Clone for WorkspaceDTO {
    fn clone(&self) -> (r: Self)
        ensures
            r == *self,
    {
        WorkspaceDTO { id: self.id, title: self.title.clone(), user_id: self.user_id }
    }
}

/// What a caller supplies to create a workspace.
#[derive(Debug)]
pub struct WorkspaceCreateDTO {
    pub title: String,
    pub user_id: u128,
}

impl Clone for WorkspaceCreateDTO {
    fn clone(&self) -> (r: Self)
        ensures
            r == *self,
    {
        WorkspaceCreateDTO { title: self.title.clone(), user_id: self.user_id }
    }
}

impl From<Workspace> for WorkspaceDTO {
    fn from(value: Workspace) -> (r: Self) {
        WorkspaceDTO { id: value.id, user_id: value.user_id, title: value.title }
    }
}

impl vstd::std_specs::convert::FromSpecImpl<Workspace> for WorkspaceDTO {
    open spec fn obeys_from_spec() -> bool {
        true
    }

    open spec fn from_spec(value: Workspace) -> Self {
        WorkspaceDTO::of(value)
    }
}

} // verus!
