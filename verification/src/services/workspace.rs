use crate::dto::user::UserDTO;
use crate::dto::workspace::{WorkspaceCreateDTO, WorkspaceDTO};
use crate::entities::workspace::Workspace;
use crate::errors::CoreError;
use crate::repositories::fresh_id;
use crate::repositories::workspace::{
    lists_owned, owned_by, owned_ids, workspace_occurs, WorkspaceRepo,
};
use crate::services::require_found;
use vstd::prelude::*;

verus! {

/// How many workspaces one user may own.
pub const MAX_WORKSPACES: usize = 3;

/// The stored record that a projection stands for.
pub open spec fn workspace_of(dto: WorkspaceDTO) -> Workspace {
    Workspace { id: dto.id, title: dto.title, user_id: dto.user_id }
}

/// The stored records that a listing of projections stands for.
pub open spec fn as_workspaces(s: Seq<WorkspaceDTO>) -> Seq<Workspace> {
    s.map_values(|d: WorkspaceDTO| workspace_of(d))
}

/// The user owns no more workspaces than one user may.
pub open spec fn within_cap(rows: Map<u128, Workspace>, user_id: u128) -> bool {
    owned_ids(rows, user_id).finite() && owned_ids(rows, user_id).len() <= MAX_WORKSPACES
}

/// The user may own one workspace more.
pub open spec fn has_room(rows: Map<u128, Workspace>, user_id: u128) -> bool {
    owned_ids(rows, user_id).finite() && owned_ids(rows, user_id).len() < MAX_WORKSPACES
}

/// The user owns exactly `n` workspaces.
pub open spec fn owns_exactly(rows: Map<u128, Workspace>, user_id: u128, n: nat) -> bool {
    owned_ids(rows, user_id).finite() && owned_ids(rows, user_id).len() == n
}

/// A listing of what a user owns is as long as the number of workspaces
/// the user owns.
pub proof fn lemma_listing_len(rows: Map<u128, Workspace>, user_id: u128, s: Seq<Workspace>)
    requires
        lists_owned(rows, user_id, s),
    ensures
        owned_ids(rows, user_id).finite(),
        owned_ids(rows, user_id).len() == s.len(),
{
    let ids = s.map_values(|w: Workspace| w.id);
    assert forall|i: int, j: int| 0 <= i < ids.len() && 0 <= j < ids.len() && i != j implies ids[i]
        != ids[j] by {
        if i < j {
            assert(s[i].id != s[j].id);
        } else {
            assert(s[j].id != s[i].id);
        }
    }
    assert(ids.no_duplicates());
    assert forall|id: u128| ids.to_set().contains(id) <==> owned_ids(rows, user_id).contains(
        id,
    ) by {
        if ids.to_set().contains(id) {
            let i = choose|i: int| 0 <= i < ids.len() && ids[i] == id;
            assert(owned_by(rows, user_id, s[i].id));
        }
        if owned_by(rows, user_id, id) {
            assert(workspace_occurs(s, id));
            let i = choose|i: int| 0 <= i < s.len() && (#[trigger] s[i]).id == id;
            assert(ids[i] == id);
        }
    }
    assert(ids.to_set() =~= owned_ids(rows, user_id));
    ids.unique_seq_to_set();
    vstd::seq_lib::seq_to_set_is_finite(ids);
}

/// Storing a workspace keeps every user within the cap, provided its owner
/// had room for it.
pub proof fn lemma_insert_keeps_cap(rows: Map<u128, Workspace>, data: Workspace, user_id: u128)
    requires
        within_cap(rows, user_id),
        data.user_id == user_id ==> has_room(rows, user_id),
    ensures
        within_cap(rows.insert(data.id, data), user_id),
{
    let before = owned_ids(rows, user_id);
    let after = owned_ids(rows.insert(data.id, data), user_id);
    if data.user_id == user_id {
        assert(after.subset_of(before.insert(data.id)));
        vstd::set_lib::lemma_len_subset(after, before.insert(data.id));
    } else {
        assert(after.subset_of(before));
        vstd::set_lib::lemma_len_subset(after, before);
    }
}

/// Admits a further workspace exactly while the user owns fewer than the
/// cap allows.
pub fn check_quota(owned: usize) -> (r: Result<(), CoreError>)
    ensures
        r == if owned >= MAX_WORKSPACES {
            Err::<(), CoreError>(CoreError::TooManyWorkspaces)
        } else {
            Ok::<(), CoreError>(())
        },
{
    if owned >= MAX_WORKSPACES {
        Err(CoreError::TooManyWorkspaces)
    } else {
        Ok(())
    }
}

/// Admits a caller exactly when the workspace is theirs. Notes and blocks
/// are reached through the workspace they belong to, so this one test
/// guards the whole chain from user to block.
pub fn check_owner(workspace: &WorkspaceDTO, user: &UserDTO) -> (r: Result<(), CoreError>)
    ensures
        r == if workspace.user_id == user.id {
            Ok::<(), CoreError>(())
        } else {
            Err::<(), CoreError>(CoreError::AccessDenied)
        },
{
    if workspace.user_id == user.id {
        Ok(())
    } else {
        Err(CoreError::AccessDenied)
    }
}

/// The projections of `workspaces`, in the same order.
pub fn project_workspaces(workspaces: &Vec<Workspace>) -> (r: Vec<WorkspaceDTO>)
    ensures
        r.len() == workspaces.len(),
        forall|i: int| 0 <= i < r.len() ==> r[i] == WorkspaceDTO::of(workspaces[i]),
        as_workspaces(r@) == workspaces@,
{
    let mut out: Vec<WorkspaceDTO> = Vec::new();
    let mut i: usize = 0;
    while i < workspaces.len()
        invariant
            i <= workspaces.len(),
            out.len() == i,
            forall|k: int| 0 <= k < i ==> out[k] == WorkspaceDTO::of(workspaces[k]),
        decreases workspaces.len() - i,
    {
        out.push(WorkspaceDTO::from(workspaces[i].clone()));
        i += 1;
    }
    proof {
        assert(as_workspaces(out@) =~= workspaces@);
    }
    out
}

/// The rules of workspaces: one user owns at most three.
#[derive(Clone)]
pub struct WorkspaceService<W: WorkspaceRepo> {
    repo: W,
}

impl<W: WorkspaceRepo> WorkspaceService<W> {
    /// The stored workspaces by identifier.
    pub closed spec fn rows(&self) -> Map<u128, Workspace> {
        self.repo.rows()
    }

    /// The workspaces of a user in the order in which the store answers
    /// for that user.
    pub closed spec fn listing(&self, user_id: u128) -> Seq<Workspace> {
        self.repo.listing(user_id)
    }

    pub fn new(repo: W) -> (r: Self)
        ensures
            r.rows() == repo.rows(),
            forall|u: u128| #[trigger] r.listing(u) == repo.listing(u),
    {
        Self { repo }
    }

    /// Stores a new workspace for its owner. An owner without room is
    /// refused before anything is written, so a store that keeps every user
    /// within the cap still does after the call.
    pub fn create(&mut self, data: WorkspaceCreateDTO) -> (r: Result<WorkspaceDTO, CoreError>)
        ensures
            !has_room(old(self).rows(), data.user_id) ==> r is Err && final(self).rows() == old(
                self,
            ).rows(),
            !has_room(old(self).rows(), data.user_id) ==> forall|u: u128| #[trigger]
                final(self).listing(u) == old(self).listing(u),
            r matches Err(e) ==> e is Database || (e == CoreError::TooManyWorkspaces && !has_room(
                old(self).rows(),
                data.user_id,
            )),
            r matches Ok(dto) ==> {
                &&& dto.title == data.title
                &&& dto.user_id == data.user_id
                &&& !old(self).rows().contains_key(dto.id)
                &&& final(self).rows() == old(self).rows().insert(dto.id, workspace_of(dto))
                &&& owned_ids(final(self).rows(), data.user_id).len() == owned_ids(
                    old(self).rows(),
                    data.user_id,
                ).len() + 1
                &&& forall|u: u128| #[trigger]
                    final(self).listing(u) == if u == data.user_id {
                        old(self).listing(u).push(workspace_of(dto))
                    } else {
                        old(self).listing(u)
                    }
                &&& forall|user_id: u128|
                    within_cap(old(self).rows(), user_id) ==> #[trigger] within_cap(
                        final(self).rows(),
                        user_id,
                    )
            },
    {
        let workspaces = match self.repo.find_all_by_user_id(data.user_id) {
            Err(e) => return Err(e),
            Ok(workspaces) => workspaces,
        };
        proof {
            lemma_listing_len(self.rows(), data.user_id, workspaces@);
        }
        match check_quota(workspaces.len()) {
            Err(e) => return Err(e),
            Ok(()) => {},
        }
        let id = fresh_id();
        let workspace = Workspace { id, user_id: data.user_id, title: data.title };
        let dto = WorkspaceDTO::from(workspace.clone());
        match self.repo.create(workspace) {
            Err(e) => return Err(e),
            Ok(()) => {},
        }
        proof {
            assert forall|user_id: u128| within_cap(old(self).rows(), user_id) implies #[trigger]
                within_cap(self.rows(), user_id) by {
                lemma_insert_keeps_cap(old(self).rows(), workspace, user_id);
            }
            assert(owned_ids(self.rows(), data.user_id) =~= owned_ids(
                old(self).rows(),
                data.user_id,
            ).insert(id));
        }
        Ok(dto)
    }

    pub fn get(&self, id: u128) -> (r: Result<WorkspaceDTO, CoreError>)
        ensures
            !self.rows().contains_key(id) ==> r is Err,
            r matches Err(e) ==> e is Database || (e == CoreError::NotFound
                && !self.rows().contains_key(id)),
            r matches Ok(dto) ==> self.rows().contains_key(id) && dto == WorkspaceDTO::of(
                self.rows()[id],
            ) && dto.id == id,
    {
        let found = match self.repo.find_one(id) {
            Err(e) => return Err(e),
            Ok(found) => found,
        };
        match require_found(found) {
            Err(e) => Err(e),
            Ok(workspace) => Ok(WorkspaceDTO::from(workspace)),
        }
    }

    /// The workspaces of a user, in the store's order.
    pub fn get_all_by_user(&self, user_id: u128) -> (r: Result<Vec<WorkspaceDTO>, CoreError>)
        ensures
            r matches Err(e) ==> e is Database,
            r matches Ok(workspaces) ==> as_workspaces(workspaces@) == self.listing(user_id),
            r matches Ok(workspaces) ==> workspaces.len() == self.listing(user_id).len(),
            r matches Ok(workspaces) ==> forall|i: int|
                0 <= i < workspaces.len() ==> workspace_of(#[trigger] workspaces[i])
                    == self.listing(user_id)[i],
            r matches Ok(workspaces) ==> lists_owned(
                self.rows(),
                user_id,
                as_workspaces(workspaces@),
            ) && owns_exactly(self.rows(), user_id, workspaces@.len()),
    {
        match self.repo.find_all_by_user_id(user_id) {
            Err(e) => Err(e),
            Ok(workspaces) => {
                proof {
                    lemma_listing_len(self.rows(), user_id, workspaces@);
                }
                Ok(project_workspaces(&workspaces))
            },
        }
    }
}

} // verus!
