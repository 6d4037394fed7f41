//! Repositories that keep their rows in memory: the witness that the
//! contracts of the repository traits can be met, and a store for callers
//! that need no database.

use crate::entities::block::Block;
use crate::entities::note::Note;
use crate::entities::user::User;
use crate::entities::workspace::Workspace;
use crate::errors::CoreError;
use crate::repositories::block::{
    in_note, is_place, lemma_place, occurs, place_behind, placed, BlockRepo,
};
use crate::repositories::note::{in_workspace, note_occurs, of_workspace, NoteRepo};
use crate::repositories::table::{
    distinct, key_of, lemma_filter_push, lemma_keyed_at, place_of, Record, Table,
};
use crate::repositories::user::{user_occurs, UserRepo};
use crate::repositories::workspace::{of_owner, owned_by, workspace_occurs, WorkspaceRepo};
use vstd::prelude::*;

verus! {

/// `s` ascends by position and names no block twice.
pub open spec fn ascending(s: Seq<Block>) -> bool {
    forall|a: int, b: int|
        0 <= a < b < s.len() ==> (#[trigger] s[a]).id != (#[trigger] s[b]).id && s[a].position
            <= s[b].position
}

/// `b` is one of the first `upto` rows and belongs to the note `note_id`.
pub open spec fn drawn(rows: Seq<Block>, upto: int, note_id: u128, b: Block) -> bool {
    exists|m: int| 0 <= m < upto && #[trigger] rows[m] == b && rows[m].note_id == note_id
}

/// The blocks of the note `note_id` among `rows`, each put in its place in
/// the order of the rows.
pub open spec fn sorted_of(rows: Seq<Block>, note_id: u128) -> Seq<Block>
    decreases rows.len(),
{
    if rows.len() == 0 {
        Seq::empty()
    } else if rows.last().note_id == note_id {
        placed(sorted_of(rows.drop_last(), note_id), rows.last())
    } else {
        sorted_of(rows.drop_last(), note_id)
    }
}

/// With one more row behind, the listing of the row's note takes the row in
/// its place and no other listing changes.
pub proof fn lemma_sorted_push(rows: Seq<Block>, row: Block, note_id: u128)
    ensures
        sorted_of(rows.push(row), note_id) == if row.note_id == note_id {
            placed(sorted_of(rows, note_id), row)
        } else {
            sorted_of(rows, note_id)
        },
{
    assert(rows.push(row).drop_last() =~= rows);
}

/// Where a block at `position` goes into a listing that ascends by
/// position: behind every block that stands at or before it.
fn insertion_place(listing: &Vec<Block>, position: i32) -> (at: usize)
    requires
        ascending(listing@),
    ensures
        at <= listing.len(),
        at == place_behind(listing@, position as int),
        forall|k: int| 0 <= k < at ==> (#[trigger] listing[k]).position <= position,
        forall|k: int| at <= k < listing.len() ==> position < (#[trigger] listing[k]).position,
{
    let mut at: usize = 0;
    while at < listing.len() && listing[at].position <= position
        invariant
            at <= listing.len(),
            forall|k: int| 0 <= k < at ==> (#[trigger] listing[k]).position <= position,
        decreases listing.len() - at,
    {
        at += 1;
    }
    proof {
        assert forall|k: int| at <= k < listing.len() implies position < (
        #[trigger] listing[k]).position by {
            if at < k {
                assert(listing[at as int].position <= listing[k].position);
            }
        }
        assert(is_place(listing@, position as int, at as int));
        lemma_place(listing@, position as int, at as int);
    }
    at
}

/// Blocks kept in memory.
pub struct MemoryBlocks {
    table: Table<Block>,
}

impl MemoryBlocks {
    /// A store without blocks.
    pub fn new() -> (r: Self)
        ensures
            r.rows() == Map::<u128, Block>::empty(),
    {
        MemoryBlocks { table: Table::new() }
    }
}

impl BlockRepo for MemoryBlocks {
    closed spec fn rows(&self) -> Map<u128, Block> {
        self.table.by_key()
    }

    closed spec fn listing(&self, note_id: u128) -> Seq<Block> {
        sorted_of(self.table.listing(), note_id)
    }

    /// Stores `data` behind the other rows; an identifier that is in use is
    /// refused, as a store with a primary key refuses it.
    fn create(&mut self, data: Block) -> (r: Result<(), CoreError>) {
        proof {
            assert forall|n: u128|
                #[trigger] sorted_of(self.table.listing().push(data), n) == if n
                    == data.note_id {
                    placed(sorted_of(self.table.listing(), n), data)
                } else {
                    sorted_of(self.table.listing(), n)
                } by {
                lemma_sorted_push(self.table.listing(), data, n);
            }
        }
        if self.table.insert(data) {
            Ok(())
        } else {
            Err(CoreError::Database("duplicate key".to_string()))
        }
    }

    fn find_one(&self, id: u128) -> (r: Result<Option<Block>, CoreError>) {
        match self.table.place(id) {
            Some(i) => Ok(Some(self.table.row(i).copy())),
            None => Ok(None),
        }
    }

    fn find_all_in_note(&self, note_id: u128) -> (r: Result<Vec<Block>, CoreError>) {
        let n = self.table.len();
        let ghost stored = self.table.listing();
        let mut out: Vec<Block> = Vec::new();
        let mut i: usize = 0;
        proof {
            assert(sorted_of(stored.take(0), note_id) =~= Seq::<Block>::empty());
        }
        while i < n
            invariant
                i <= n == stored.len(),
                stored == self.table.listing(),
                distinct(stored, key_of::<Block>()),
                out@ == sorted_of(stored.take(i as int), note_id),
                ascending(out@),
                forall|k: int|
                    0 <= k < out.len() ==> drawn(stored, i as int, note_id, #[trigger] out[k]),
                forall|m: int|
                    0 <= m < i && (#[trigger] stored[m]).note_id == note_id ==> occurs(
                        out@,
                        stored[m].id,
                    ),
            decreases stored.len() - i,
        {
            proof {
                assert(stored.take(i + 1) =~= stored.take(i as int).push(stored[i as int]));
                lemma_sorted_push(stored.take(i as int), stored[i as int], note_id);
                assert forall|k: int| 0 <= k < out.len() implies drawn(
                    stored,
                    i + 1,
                    note_id,
                    #[trigger] out[k],
                ) by {
                    assert(drawn(stored, i as int, note_id, out[k]));
                    let m = choose|m: int|
                        0 <= m < i && #[trigger] stored[m] == out[k] && stored[m].note_id
                            == note_id;
                    assert(0 <= m < i + 1 && stored[m] == out[k]);
                }
            }
            if self.table.row(i).note_id == note_id {
                let row = self.table.row(i).copy();
                let at = insertion_place(&out, row.position);
                let ghost before = out@;
                proof {
                    assert forall|k: int| 0 <= k < before.len() implies drawn(
                        stored,
                        i as int,
                        note_id,
                        #[trigger] before[k],
                    ) by {}
                }
                out.insert(at, row);
                proof {
                    let after = out@;
                    assert(after.len() == before.len() + 1);
                    assert forall|k: int| 0 <= k < after.len() implies #[trigger] after[k] == (if k
                        < at {
                        before[k]
                    } else if k == at {
                        row
                    } else {
                        before[k - 1]
                    }) by {}
                    assert forall|k: int| 0 <= k < after.len() implies drawn(
                        stored,
                        i + 1,
                        note_id,
                        #[trigger] after[k],
                    ) by {
                        if k == at {
                            assert(stored[i as int] == after[k]);
                        } else {
                            let k0 = if k < at {
                                k
                            } else {
                                k - 1
                            };
                            assert(drawn(stored, i + 1, note_id, before[k0]));
                        }
                    }
                    assert forall|m: int|
                        0 <= m < i + 1 && (#[trigger] stored[m]).note_id == note_id implies occurs(
                        after,
                        stored[m].id,
                    ) by {
                        if m == i {
                            assert(after[at as int].id == stored[m].id);
                        } else {
                            assert(occurs(before, stored[m].id));
                            let k0 = choose|k: int|
                                0 <= k < before.len() && (#[trigger] before[k]).id
                                    == stored[m].id;
                            let k = if k0 < at {
                                k0
                            } else {
                                k0 + 1
                            };
                            assert(after[k].id == stored[m].id);
                        }
                    }
                    assert forall|a: int, b: int| 0 <= a < b < after.len() implies (
                    #[trigger] after[a]).id != (#[trigger] after[b]).id && after[a].position
                        <= after[b].position by {
                        let a0 = if a < at {
                            a
                        } else {
                            a - 1
                        };
                        let b0 = if b < at {
                            b
                        } else {
                            b - 1
                        };
                        if a == at {
                            assert(drawn(stored, i as int, note_id, before[b0]));
                            let m = choose|m: int|
                                0 <= m < i && #[trigger] stored[m] == before[b0]
                                    && stored[m].note_id == note_id;
                            assert(key_of::<Block>()(stored[m]) != key_of::<Block>()(stored[i as int]));
                        } else if b == at {
                            assert(drawn(stored, i as int, note_id, before[a0]));
                            let m = choose|m: int|
                                0 <= m < i && #[trigger] stored[m] == before[a0]
                                    && stored[m].note_id == note_id;
                            assert(key_of::<Block>()(stored[m]) != key_of::<Block>()(stored[i as int]));
                        } else {
                            assert(before[a0].id != before[b0].id);
                        }
                    }
                }
            }
            i += 1;
        }
        proof {
            assert(stored.take(n as int) =~= stored);
            let rows = self.rows();
            assert forall|k: int| 0 <= k < out.len() implies in_note(
                rows,
                note_id,
                (#[trigger] out@[k]).id,
            ) && rows[out@[k].id] == out@[k] by {
                assert(drawn(stored, i as int, note_id, out@[k]));
                let m = choose|m: int|
                    0 <= m < i && #[trigger] stored[m] == out@[k] && stored[m].note_id
                        == note_id;
                lemma_keyed_at(stored, key_of::<Block>(), m);
            }
            assert forall|id: u128| #[trigger] in_note(rows, note_id, id) implies occurs(
                out@,
                id,
            ) by {
                let m = place_of(stored, key_of::<Block>(), id);
                assert(key_of::<Block>()(stored[m]) == id);
                assert(stored[m].note_id == note_id);
            }
        }
        Ok(out)
    }

    fn delete(&mut self, id: u128) -> (r: Result<(), CoreError>) {
        self.table.remove(id);
        Ok(())
    }

    fn save(&mut self, data: Block) -> (r: Result<(), CoreError>) {
        self.table.replace(data);
        Ok(())
    }
}

/// Notes kept in memory.
pub struct MemoryNotes {
    table: Table<Note>,
}

impl MemoryNotes {
    /// A store without notes.
    pub fn new() -> (r: Self)
        ensures
            r.rows() == Map::<u128, Note>::empty(),
    {
        MemoryNotes { table: Table::new() }
    }
}

impl NoteRepo for MemoryNotes {
    closed spec fn rows(&self) -> Map<u128, Note> {
        self.table.by_key()
    }

    closed spec fn listing(&self, workspace_id: u128) -> Seq<Note> {
        self.table.listing().filter(of_workspace(workspace_id))
    }

    /// Stores `data` behind the other rows; an identifier that is in use is
    /// refused, as a store with a primary key refuses it.
    fn create(&mut self, data: Note) -> (r: Result<(), CoreError>) {
        proof {
            assert forall|k: u128|
                #[trigger] self.table.listing().push(data).filter(of_workspace(k)) == if k
                    == data.workspace_id {
                    self.table.listing().filter(of_workspace(k)).push(data)
                } else {
                    self.table.listing().filter(of_workspace(k))
                } by {
                lemma_filter_push(self.table.listing(), of_workspace(k), data);
            }
        }
        if self.table.insert(data) {
            Ok(())
        } else {
            Err(CoreError::Database("duplicate key".to_string()))
        }
    }

    fn find_one(&self, id: u128) -> (r: Result<Option<Note>, CoreError>) {
        match self.table.place(id) {
            Some(i) => Ok(Some(self.table.row(i).copy())),
            None => Ok(None),
        }
    }

    fn find_all_in_workspace(&self, workspace_id: u128) -> (r: Result<Vec<Note>, CoreError>) {
        let n = self.table.len();
        let ghost rows = self.table.listing();
        let mut out: Vec<Note> = Vec::new();
        let ghost mut from: Seq<int> = Seq::empty();
        proof {
            reveal(Seq::filter);
            assert(rows.take(0).filter(of_workspace(workspace_id)) =~= Seq::<Note>::empty());
        }
        let mut i: usize = 0;
        while i < n
            invariant
                i <= n == rows.len(),
                rows == self.table.listing(),
                distinct(rows, key_of::<Note>()),
                out@ == rows.take(i as int).filter(of_workspace(workspace_id)),
                from.len() == out.len(),
                forall|k: int|
                    0 <= k < out.len() ==> 0 <= #[trigger] from[k] < i && rows[from[k]] == out[k]
                        && out[k].workspace_id == workspace_id,
                forall|a: int, b: int|
                    0 <= a < b < out.len() ==> #[trigger] from[a] < #[trigger] from[b],
                forall|m: int|
                    0 <= m < i && (#[trigger] rows[m]).workspace_id == workspace_id ==> note_occurs(
                        out@,
                        rows[m].id,
                    ),
            decreases rows.len() - i,
        {
            proof {
                assert(rows.take(i + 1) =~= rows.take(i as int).push(rows[i as int]));
                lemma_filter_push(rows.take(i as int), of_workspace(workspace_id), rows[i as int]);
            }
            if self.table.row(i).workspace_id == workspace_id {
                let ghost before = out@;
                out.push(self.table.row(i).copy());
                proof {
                    from = from.push(i as int);
                    assert forall|m: int|
                        0 <= m < i + 1 && (#[trigger] rows[m]).workspace_id == workspace_id implies note_occurs(
                        out@,
                        rows[m].id,
                    ) by {
                        if m == i {
                            assert(out@[before.len() as int].id == rows[m].id);
                        } else {
                            assert(note_occurs(before, rows[m].id));
                            let k = choose|k: int|
                                0 <= k < before.len() && (#[trigger] before[k]).id == rows[m].id;
                            assert(out@[k].id == rows[m].id);
                        }
                    }
                }
            }
            i += 1;
        }
        proof {
            assert(rows.take(n as int) =~= rows);
            let stored = self.rows();
            assert forall|k: int| 0 <= k < out.len() implies in_workspace(
                stored,
                workspace_id,
                (#[trigger] out@[k]).id,
            ) && stored[out@[k].id] == out@[k] by {
                lemma_keyed_at(rows, key_of::<Note>(), from[k]);
            }
            assert forall|id: u128| #[trigger] in_workspace(stored, workspace_id, id) implies note_occurs(
                out@,
                id,
            ) by {
                let m = place_of(rows, key_of::<Note>(), id);
                assert(key_of::<Note>()(rows[m]) == id);
                assert(rows[m].workspace_id == workspace_id);
            }
            assert forall|a: int, b: int| 0 <= a < b < out.len() implies (#[trigger] out@[a]).id
                != (#[trigger] out@[b]).id by {
                assert(from[a] < from[b]);
                assert(key_of::<Note>()(rows[from[a]]) != key_of::<Note>()(rows[from[b]]));
            }
        }
        Ok(out)
    }

    fn delete(&mut self, id: u128) -> (r: Result<(), CoreError>) {
        self.table.remove(id);
        Ok(())
    }

    fn save(&mut self, data: Note) -> (r: Result<(), CoreError>) {
        self.table.replace(data);
        Ok(())
    }
}

/// Workspaces kept in memory.
pub struct MemoryWorkspaces {
    table: Table<Workspace>,
}

impl MemoryWorkspaces {
    /// A store without workspaces.
    pub fn new() -> (r: Self)
        ensures
            r.rows() == Map::<u128, Workspace>::empty(),
    {
        MemoryWorkspaces { table: Table::new() }
    }
}

impl WorkspaceRepo for MemoryWorkspaces {
    closed spec fn rows(&self) -> Map<u128, Workspace> {
        self.table.by_key()
    }

    closed spec fn listing(&self, user_id: u128) -> Seq<Workspace> {
        self.table.listing().filter(of_owner(user_id))
    }

    /// Stores `data` behind the other rows; an identifier that is in use is
    /// refused, as a store with a primary key refuses it.
    fn create(&mut self, data: Workspace) -> (r: Result<(), CoreError>) {
        proof {
            assert forall|k: u128|
                #[trigger] self.table.listing().push(data).filter(of_owner(k)) == if k
                    == data.user_id {
                    self.table.listing().filter(of_owner(k)).push(data)
                } else {
                    self.table.listing().filter(of_owner(k))
                } by {
                lemma_filter_push(self.table.listing(), of_owner(k), data);
            }
        }
        if self.table.insert(data) {
            Ok(())
        } else {
            Err(CoreError::Database("duplicate key".to_string()))
        }
    }

    fn find_one(&self, id: u128) -> (r: Result<Option<Workspace>, CoreError>) {
        match self.table.place(id) {
            Some(i) => Ok(Some(self.table.row(i).copy())),
            None => Ok(None),
        }
    }

    fn find_all_by_user_id(&self, user_id: u128) -> (r: Result<Vec<Workspace>, CoreError>) {
        let n = self.table.len();
        let ghost rows = self.table.listing();
        let mut out: Vec<Workspace> = Vec::new();
        let ghost mut from: Seq<int> = Seq::empty();
        proof {
            reveal(Seq::filter);
            assert(rows.take(0).filter(of_owner(user_id)) =~= Seq::<Workspace>::empty());
        }
        let mut i: usize = 0;
        while i < n
            invariant
                i <= n == rows.len(),
                rows == self.table.listing(),
                distinct(rows, key_of::<Workspace>()),
                out@ == rows.take(i as int).filter(of_owner(user_id)),
                from.len() == out.len(),
                forall|k: int|
                    0 <= k < out.len() ==> 0 <= #[trigger] from[k] < i && rows[from[k]] == out[k]
                        && out[k].user_id == user_id,
                forall|a: int, b: int|
                    0 <= a < b < out.len() ==> #[trigger] from[a] < #[trigger] from[b],
                forall|m: int|
                    0 <= m < i && (#[trigger] rows[m]).user_id == user_id ==> workspace_occurs(
                        out@,
                        rows[m].id,
                    ),
            decreases rows.len() - i,
        {
            proof {
                assert(rows.take(i + 1) =~= rows.take(i as int).push(rows[i as int]));
                lemma_filter_push(rows.take(i as int), of_owner(user_id), rows[i as int]);
            }
            if self.table.row(i).user_id == user_id {
                let ghost before = out@;
                out.push(self.table.row(i).copy());
                proof {
                    from = from.push(i as int);
                    assert forall|m: int|
                        0 <= m < i + 1 && (#[trigger] rows[m]).user_id == user_id implies workspace_occurs(
                        out@,
                        rows[m].id,
                    ) by {
                        if m == i {
                            assert(out@[before.len() as int].id == rows[m].id);
                        } else {
                            assert(workspace_occurs(before, rows[m].id));
                            let k = choose|k: int|
                                0 <= k < before.len() && (#[trigger] before[k]).id == rows[m].id;
                            assert(out@[k].id == rows[m].id);
                        }
                    }
                }
            }
            i += 1;
        }
        proof {
            assert(rows.take(n as int) =~= rows);
            let stored = self.rows();
            assert forall|k: int| 0 <= k < out.len() implies owned_by(
                stored,
                user_id,
                (#[trigger] out@[k]).id,
            ) && stored[out@[k].id] == out@[k] by {
                lemma_keyed_at(rows, key_of::<Workspace>(), from[k]);
            }
            assert forall|id: u128| #[trigger] owned_by(stored, user_id, id) implies workspace_occurs(
                out@,
                id,
            ) by {
                let m = place_of(rows, key_of::<Workspace>(), id);
                assert(key_of::<Workspace>()(rows[m]) == id);
                assert(rows[m].user_id == user_id);
            }
            assert forall|a: int, b: int| 0 <= a < b < out.len() implies (#[trigger] out@[a]).id
                != (#[trigger] out@[b]).id by {
                assert(from[a] < from[b]);
                assert(key_of::<Workspace>()(rows[from[a]]) != key_of::<Workspace>()(rows[from[b]]));
            }
        }
        Ok(out)
    }

    fn delete(&mut self, id: u128) -> (r: Result<(), CoreError>) {
        self.table.remove(id);
        Ok(())
    }

    fn save(&mut self, data: Workspace) -> (r: Result<(), CoreError>) {
        self.table.replace(data);
        Ok(())
    }
}

/// Users kept in memory.
pub struct MemoryUsers {
    table: Table<User>,
}

impl MemoryUsers {
    /// A store without users.
    pub fn new() -> (r: Self)
        ensures
            r.rows() == Map::<u128, User>::empty(),
    {
        MemoryUsers { table: Table::new() }
    }
}

impl UserRepo for MemoryUsers {
    closed spec fn rows(&self) -> Map<u128, User> {
        self.table.by_key()
    }

    /// Stores `data`; an identifier that is in use is refused, as a store
    /// with a primary key refuses it.
    fn create(&mut self, data: User) -> (r: Result<(), CoreError>) {
        if self.table.insert(data) {
            Ok(())
        } else {
            Err(CoreError::Database("duplicate key".to_string()))
        }
    }

    fn find_one(&self, id: u128) -> (r: Result<Option<User>, CoreError>) {
        match self.table.place(id) {
            Some(i) => Ok(Some(self.table.row(i).copy())),
            None => Ok(None),
        }
    }

    fn find_one_by_username(&self, username: String) -> (r: Result<Option<User>, CoreError>) {
        let n = self.table.len();
        let ghost rows = self.table.listing();
        let mut i: usize = 0;
        while i < n
            invariant
                i <= n == rows.len(),
                rows == self.table.listing(),
                distinct(rows, key_of::<User>()),
                forall|k: int| 0 <= k < i ==> (#[trigger] rows[k]).username@ != username@,
            decreases rows.len() - i,
        {
            if self.table.row(i).username == username {
                proof {
                    lemma_keyed_at(rows, key_of::<User>(), i as int);
                }
                return Ok(Some(self.table.row(i).copy()));
            }
            i += 1;
        }
        proof {
            assert forall|id: u128| self.rows().contains_key(id) implies (
            #[trigger] self.rows()[id]).username@ != username@ by {
                let m = place_of(rows, key_of::<User>(), id);
                assert(key_of::<User>()(rows[m]) == id);
            }
        }
        Ok(None)
    }

    fn find_one_by_email(&self, email: String) -> (r: Result<Option<User>, CoreError>) {
        let n = self.table.len();
        let ghost rows = self.table.listing();
        let mut i: usize = 0;
        while i < n
            invariant
                i <= n == rows.len(),
                rows == self.table.listing(),
                distinct(rows, key_of::<User>()),
                forall|k: int| 0 <= k < i ==> (#[trigger] rows[k]).email@ != email@,
            decreases rows.len() - i,
        {
            if self.table.row(i).email == email {
                proof {
                    lemma_keyed_at(rows, key_of::<User>(), i as int);
                }
                return Ok(Some(self.table.row(i).copy()));
            }
            i += 1;
        }
        proof {
            assert forall|id: u128| self.rows().contains_key(id) implies (
            #[trigger] self.rows()[id]).email@ != email@ by {
                let m = place_of(rows, key_of::<User>(), id);
                assert(key_of::<User>()(rows[m]) == id);
            }
        }
        Ok(None)
    }

    fn find_all(&self) -> (r: Result<Vec<User>, CoreError>) {
        let ghost rows = self.table.listing();
        let users = self.table.copy_all();
        proof {
            assert forall|i: int| 0 <= i < users.len() implies self.rows().contains_key(
                (#[trigger] users@[i]).id,
            ) && self.rows()[users@[i].id] == users@[i] by {
                lemma_keyed_at(rows, key_of::<User>(), i);
            }
            assert forall|id: u128| #[trigger] self.rows().contains_key(id) implies user_occurs(
                users@,
                id,
            ) by {
                let m = place_of(rows, key_of::<User>(), id);
                assert(key_of::<User>()(rows[m]) == id);
                assert(users@[m].id == id);
            }
            assert forall|i: int, j: int| 0 <= i < j < users.len() implies (#[trigger] users@[i]).id
                != (#[trigger] users@[j]).id by {
                assert(key_of::<User>()(rows[i]) != key_of::<User>()(rows[j]));
            }
        }
        Ok(users)
    }

    fn delete(&mut self, id: u128) -> (r: Result<(), CoreError>) {
        self.table.remove(id);
        Ok(())
    }

    fn save(&mut self, data: User) -> (r: Result<(), CoreError>) {
        self.table.replace(data);
        Ok(())
    }
}

} // verus!
