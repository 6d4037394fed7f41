use crate::dto::block::BlockDTO;
use crate::dto::note::{NoteCreateDTO, NoteDTO, NoteUpdateDTO};
use crate::entities::block::Block;
use crate::entities::note::{Note, NoteIconType};
use crate::errors::CoreError;
use crate::repositories::block::{in_note, lists_note, occurs, BlockRepo};
use crate::repositories::fresh_id;
use crate::repositories::note::{lists_workspace, NoteRepo};
use crate::services::block::{as_blocks, project_blocks};
use crate::services::require_found;
use vstd::prelude::*;

verus! {

/// The stored record that a composed read stands for.
pub open spec fn note_of(dto: NoteDTO) -> Note {
    Note {
        id: dto.id,
        title: dto.title,
        icon_type: dto.icon_type,
        icon_data: dto.icon_data,
        workspace_id: dto.workspace_id,
        parent_note: dto.parent_note,
    }
}

/// The stored records that a listing of composed reads stands for.
pub open spec fn as_notes(s: Seq<NoteDTO>) -> Seq<Note> {
    s.map_values(|d: NoteDTO| note_of(d))
}

/// `dto` is the composed read of the note `id`: the stored note together
/// with the listing of its blocks.
pub open spec fn composes(
    notes: Map<u128, Note>,
    blocks: Map<u128, Block>,
    id: u128,
    dto: NoteDTO,
) -> bool {
    &&& notes.contains_key(id)
    &&& note_of(dto) == notes[id]
    &&& dto.id == id
    &&& lists_note(blocks, id, as_blocks(dto.blocks@))
}

/// A parent is named and it is not stored.
pub open spec fn parent_missing(notes: Map<u128, Note>, parent: Option<u128>) -> bool {
    match parent {
        Some(p) => !notes.contains_key(p),
        None => false,
    }
}

/// The stored note after a partial update.
pub open spec fn retitled(stored: Note, data: NoteUpdateDTO) -> Note {
    Note {
        id: stored.id,
        title: match data.title {
            Some(t) => t,
            None => stored.title,
        },
        icon_type: stored.icon_type,
        icon_data: stored.icon_data,
        workspace_id: stored.workspace_id,
        parent_note: stored.parent_note,
    }
}

/// `i` is the place of the first occurrence of `id` in `ids`.
pub open spec fn is_first_index(ids: Seq<u128>, id: u128, i: int) -> bool {
    &&& 0 <= i < ids.len()
    &&& ids[i] == id
    &&& forall|j: int| 0 <= j < i ==> ids[j] != id
}

/// The place of the first occurrence of `id` in `ids`.
pub open spec fn first_index(ids: Seq<u128>, id: u128) -> int {
    choose|i: int| is_first_index(ids, id, i)
}

/// `block` at the position `position`.
pub open spec fn moved(block: Block, position: i32) -> Block {
    Block {
        id: block.id,
        block_type: block.block_type,
        content: block.content,
        note_id: block.note_id,
        position,
    }
}

/// `ids` names exactly the blocks of the listing `s`: every block of the
/// listing is named, every name is that of a block of the listing, and
/// every place in `ids` is a position.
pub open spec fn names_listing(s: Seq<Block>, ids: Seq<u128>) -> bool {
    &&& ids.len() <= i32::MAX
    &&& forall|k: int| 0 <= k < ids.len() ==> occurs(s, #[trigger] ids[k])
    &&& forall|i: int| 0 <= i < s.len() ==> ids.contains((#[trigger] s[i]).id)
}

/// `ids` names exactly the stored blocks of the note `note_id`.
pub open spec fn names_note(rows: Map<u128, Block>, note_id: u128, ids: Seq<u128>) -> bool {
    &&& ids.len() <= i32::MAX
    &&& forall|k: int| 0 <= k < ids.len() ==> in_note(rows, note_id, #[trigger] ids[k])
    &&& forall|id: u128| #[trigger] in_note(rows, note_id, id) ==> ids.contains(id)
}

/// The store after the blocks of the note `note_id` took the places that
/// `ids` gives them: each block of the note stands at the place of the
/// first occurrence of its identifier, every other block is untouched.
pub open spec fn reordered(rows: Map<u128, Block>, note_id: u128, ids: Seq<u128>) -> Map<
    u128,
    Block,
> {
    Map::new(
        |id: u128| rows.contains_key(id),
        |id: u128|
            if rows[id].note_id == note_id {
                moved(rows[id], first_index(ids, id) as i32)
            } else {
                rows[id]
            },
    )
}

/// Some block among the first `k` of `plan` carries the identifier `id`.
pub open spec fn touched(plan: Seq<Block>, k: int, id: u128) -> bool {
    exists|j: int| 0 <= j < k && (#[trigger] plan[j]).id == id
}

/// The first occurrence is unique.
pub proof fn lemma_first_index(ids: Seq<u128>, id: u128, i: int)
    requires
        is_first_index(ids, id, i),
    ensures
        first_index(ids, id) == i,
        ids.contains(id),
{
    let c = first_index(ids, id);
    assert(is_first_index(ids, id, c));
    if c < i {
        assert(ids[c] != id);
    }
    if i < c {
        assert(ids[i] != id);
    }
}

/// On the listing of a note, naming the listing and naming the note's
/// stored blocks are the same demand.
pub proof fn lemma_names(rows: Map<u128, Block>, note_id: u128, s: Seq<Block>, ids: Seq<u128>)
    requires
        lists_note(rows, note_id, s),
    ensures
        names_listing(s, ids) <==> names_note(rows, note_id, ids),
{
    if names_listing(s, ids) {
        assert forall|k: int| 0 <= k < ids.len() implies in_note(
            rows,
            note_id,
            #[trigger] ids[k],
        ) by {
            assert(occurs(s, ids[k]));
            let i = choose|i: int| 0 <= i < s.len() && (#[trigger] s[i]).id == ids[k];
            assert(in_note(rows, note_id, s[i].id));
        }
        assert forall|id: u128| #[trigger] in_note(rows, note_id, id) implies ids.contains(id) by {
            assert(occurs(s, id));
            let i = choose|i: int| 0 <= i < s.len() && (#[trigger] s[i]).id == id;
            assert(ids.contains(s[i].id));
        }
    }
    if names_note(rows, note_id, ids) {
        assert forall|k: int| 0 <= k < ids.len() implies occurs(s, #[trigger] ids[k]) by {
            assert(in_note(rows, note_id, ids[k]));
        }
        assert forall|i: int| 0 <= i < s.len() implies ids.contains((#[trigger] s[i]).id) by {
            assert(in_note(rows, note_id, s[i].id));
        }
    }
}

/// When `ids` names each block of the note once, the block named at place
/// `i` stands at position `i` after the reordering and is otherwise as it
/// was.
pub proof fn lemma_reordered_places(
    rows: Map<u128, Block>,
    note_id: u128,
    ids: Seq<u128>,
    i: int,
)
    requires
        names_note(rows, note_id, ids),
        ids.no_duplicates(),
        0 <= i < ids.len(),
    ensures
        reordered(rows, note_id, ids).contains_key(ids[i]),
        reordered(rows, note_id, ids)[ids[i]] == moved(rows[ids[i]], i as i32),
        reordered(rows, note_id, ids)[ids[i]].position == i,
{
    assert(in_note(rows, note_id, ids[i]));
    assert(is_first_index(ids, ids[i], i));
    lemma_first_index(ids, ids[i], i);
}

/// A reordering keeps the stored identifiers and touches no block of
/// another note; of a block of the note it changes the position alone.
pub proof fn lemma_reordered_elsewhere(
    rows: Map<u128, Block>,
    note_id: u128,
    ids: Seq<u128>,
    id: u128,
)
    ensures
        reordered(rows, note_id, ids).contains_key(id) <==> rows.contains_key(id),
        rows.contains_key(id) && rows[id].note_id != note_id ==> reordered(rows, note_id, ids)[id]
            == rows[id],
        rows.contains_key(id) ==> moved(reordered(rows, note_id, ids)[id], rows[id].position)
            == rows[id],
{
}

/// Whether some block of `blocks` carries the identifier `id`.
pub fn has_block(blocks: &Vec<Block>, id: u128) -> (r: bool)
    ensures
        r == occurs(blocks@, id),
{
    let mut i: usize = 0;
    while i < blocks.len()
        invariant
            i <= blocks.len(),
            forall|j: int| 0 <= j < i ==> (#[trigger] blocks[j]).id != id,
        decreases blocks.len() - i,
    {
        if blocks[i].id == id {
            return true;
        }
        i += 1;
    }
    false
}

/// The place of the first occurrence of `id` in `ids`, if it occurs.
pub fn index_of(ids: &Vec<u128>, id: u128) -> (r: Option<usize>)
    ensures
        match r {
            Some(i) => is_first_index(ids@, id, i as int) && first_index(ids@, id) == i,
            None => !ids@.contains(id),
        },
{
    let mut i: usize = 0;
    while i < ids.len()
        invariant
            i <= ids.len(),
            forall|j: int| 0 <= j < i ==> ids[j] != id,
        decreases ids.len() - i,
    {
        if ids[i] == id {
            proof {
                lemma_first_index(ids@, id, i as int);
            }
            return Some(i);
        }
        i += 1;
    }
    None
}

/// Decides a reordering of the listing `note_blocks` by `ids`. Unless `ids`
/// names exactly the blocks of the listing, the whole request is refused.
/// Else every block of the listing comes back at the place of the first
/// occurrence of its identifier in `ids`.
pub fn plan_reorder(note_blocks: &Vec<Block>, ids: &Vec<u128>) -> (r: Result<
    Vec<Block>,
    CoreError,
>)
    ensures
        !names_listing(note_blocks@, ids@) ==> r == Err::<Vec<Block>, CoreError>(
            CoreError::ServerError,
        ),
        names_listing(note_blocks@, ids@) ==> r is Ok,
        r matches Ok(plan) ==> {
            &&& plan.len() == note_blocks.len()
            &&& forall|i: int|
                0 <= i < plan.len() ==> #[trigger] plan[i] == moved(
                    note_blocks[i],
                    first_index(ids@, note_blocks[i].id) as i32,
                )
        },
{
    if ids.len() > 2147483647 {
        return Err(CoreError::ServerError);
    }
    let mut k: usize = 0;
    while k < ids.len()
        invariant
            k <= ids.len(),
            forall|j: int| 0 <= j < k ==> occurs(note_blocks@, #[trigger] ids[j]),
        decreases ids.len() - k,
    {
        if !has_block(note_blocks, ids[k]) {
            return Err(CoreError::ServerError);
        }
        k += 1;
    }
    let mut plan: Vec<Block> = Vec::new();
    let mut i: usize = 0;
    while i < note_blocks.len()
        invariant
            i <= note_blocks.len(),
            plan.len() == i,
            ids.len() <= i32::MAX,
            forall|j: int| 0 <= j < i ==> ids@.contains((#[trigger] note_blocks[j]).id),
            forall|j: int|
                0 <= j < i ==> #[trigger] plan[j] == moved(
                    note_blocks[j],
                    first_index(ids@, note_blocks[j].id) as i32,
                ),
        decreases note_blocks.len() - i,
    {
        let block = &note_blocks[i];
        let place = match index_of(ids, block.id) {
            None => {
                return Err(CoreError::ServerError);
            },
            Some(place) => place,
        };
        plan.push(
            Block {
                id: block.id,
                block_type: block.block_type,
                content: block.content.clone(),
                note_id: block.note_id,
                position: place as i32,
            },
        );
        i += 1;
    }
    Ok(plan)
}

/// The composed read of `note` with the listing `blocks` of its blocks.
pub fn compose(note: Note, blocks: Vec<BlockDTO>) -> (r: NoteDTO)
    ensures
        note_of(r) == note,
        r.blocks == blocks,
{
    NoteDTO {
        id: note.id,
        title: note.title,
        icon_type: note.icon_type,
        icon_data: note.icon_data,
        workspace_id: note.workspace_id,
        parent_note: note.parent_note,
        blocks,
    }
}

/// The rules of notes: a nested note has an existing parent, a note is read
/// together with its blocks, and a reordering is all or nothing.
#[derive(Clone)]
pub struct NoteService<R: NoteRepo, B: BlockRepo> {
    repo: R,
    block_repo: B,
}

impl<R: NoteRepo, B: BlockRepo> NoteService<R, B> {
    /// The stored notes by identifier.
    pub closed spec fn notes(&self) -> Map<u128, Note> {
        self.repo.rows()
    }

    /// The stored blocks by identifier.
    pub closed spec fn blocks(&self) -> Map<u128, Block> {
        self.block_repo.rows()
    }

    /// The blocks of a note in the order in which the store answers for
    /// it, ascending by position.
    pub closed spec fn block_listing(&self, note_id: u128) -> Seq<Block> {
        self.block_repo.listing(note_id)
    }

    /// The notes of a workspace in the order in which the store answers
    /// for it.
    pub closed spec fn listing(&self, workspace_id: u128) -> Seq<Note> {
        self.repo.listing(workspace_id)
    }

    pub fn new(repo: R, block_repo: B) -> (r: Self)
        ensures
            r.notes() == repo.rows(),
            r.blocks() == block_repo.rows(),
            forall|w: u128| #[trigger] r.listing(w) == repo.listing(w),
            forall|n: u128| #[trigger] r.block_listing(n) == block_repo.listing(n),
    {
        Self { repo, block_repo }
    }

    /// Stores a new note with the default icon and reads it back. A parent
    /// that is not stored refuses the request before anything is written.
    pub fn create(&mut self, data: NoteCreateDTO) -> (r: Result<NoteDTO, CoreError>)
        ensures
            final(self).blocks() == old(self).blocks(),
            forall|n: u128| #[trigger] final(self).block_listing(n) == old(self).block_listing(n),
            parent_missing(old(self).notes(), data.parent_note) ==> r is Err && final(
                self
            ).notes() == old(self).notes(),
            parent_missing(old(self).notes(), data.parent_note) ==> forall|w: u128| #[trigger]
                final(self).listing(w) == old(self).listing(w),
            r matches Err(e) ==> e is Database || (e == CoreError::NotFound && parent_missing(
                old(self).notes(),
                data.parent_note,
            )),
            r matches Ok(dto) ==> {
                &&& dto.title == data.title
                &&& dto.icon_type == NoteIconType::Emoji
                &&& dto.icon_data@ == "📦"@
                &&& dto.workspace_id == data.workspace_id
                &&& dto.parent_note == data.parent_note
                &&& !old(self).notes().contains_key(dto.id)
                &&& forall|w: u128| #[trigger]
                    final(self).listing(w) == if w == data.workspace_id {
                        old(self).listing(w).push(note_of(dto))
                    } else {
                        old(self).listing(w)
                    }
                &&& final(self).notes() == old(self).notes().insert(dto.id, note_of(dto))
                &&& composes(final(self).notes(), final(self).blocks(), dto.id, dto)
                &&& as_blocks(dto.blocks@) == final(self).block_listing(dto.id)
            },
    {
        if let Some(parent_note_id) = data.parent_note {
            let found = match self.repo.find_one(parent_note_id) {
                Err(e) => return Err(e),
                Ok(found) => found,
            };
            match require_found(found) {
                Err(e) => return Err(e),
                Ok(_) => {},
            }
        }
        let id = fresh_id();
        let note = Note {
            id,
            title: data.title,
            icon_type: NoteIconType::Emoji,
            icon_data: "📦".to_string(),
            workspace_id: data.workspace_id,
            parent_note: data.parent_note,
        };
        match self.repo.create(note) {
            Err(e) => return Err(e),
            Ok(()) => {},
        }
        self.find_one(id)
    }

    /// The note `id` together with its blocks, ascending by position.
    pub fn find_one(&self, id: u128) -> (r: Result<NoteDTO, CoreError>)
        ensures
            !self.notes().contains_key(id) ==> r is Err,
            r matches Err(e) ==> e is Database || (e == CoreError::NotFound
                && !self.notes().contains_key(id)),
            r matches Ok(dto) ==> composes(self.notes(), self.blocks(), id, dto),
            r matches Ok(dto) ==> as_blocks(dto.blocks@) == self.block_listing(id),
    {
        let found = match self.repo.find_one(id) {
            Err(e) => return Err(e),
            Ok(found) => found,
        };
        let note = match require_found(found) {
            Err(e) => return Err(e),
            Ok(note) => note,
        };
        let blocks = match self.block_repo.find_all_in_note(id) {
            Err(e) => return Err(e),
            Ok(blocks) => project_blocks(&blocks),
        };
        Ok(compose(note, blocks))
    }

    /// One composed read per note of the workspace, in the store's order.
    pub fn get_all_in_workspace(&self, workspace_id: u128) -> (r: Result<Vec<NoteDTO>, CoreError>)
        ensures
            r matches Err(e) ==> e is Database,
            r matches Ok(dtos) ==> {
                &&& as_notes(dtos@) == self.listing(workspace_id)
                &&& dtos.len() == self.listing(workspace_id).len()
                &&& forall|i: int|
                    0 <= i < dtos.len() ==> note_of(#[trigger] dtos[i]) == self.listing(
                        workspace_id,
                    )[i]
                &&& lists_workspace(self.notes(), workspace_id, as_notes(dtos@))
                &&& forall|i: int|
                    0 <= i < dtos.len() ==> composes(
                        self.notes(),
                        self.blocks(),
                        (#[trigger] dtos[i]).id,
                        dtos[i],
                    )
                &&& forall|i: int|
                    0 <= i < dtos.len() ==> as_blocks((#[trigger] dtos[i]).blocks@)
                        == self.block_listing(dtos[i].id)
            },
    {
        let notes = match self.repo.find_all_in_workspace(workspace_id) {
            Err(e) => return Err(e),
            Ok(notes) => notes,
        };
        let mut dtos: Vec<NoteDTO> = Vec::new();
        let mut i: usize = 0;
        while i < notes.len()
            invariant
                i <= notes.len(),
                dtos.len() == i,
                lists_workspace(self.notes(), workspace_id, notes@),
                notes@ == self.listing(workspace_id),
                forall|j: int| 0 <= j < i ==> note_of(#[trigger] dtos[j]) == notes[j],
                forall|j: int|
                    0 <= j < i ==> lists_note(
                        self.blocks(),
                        notes[j].id,
                        as_blocks((#[trigger] dtos[j]).blocks@),
                    ),
                forall|j: int|
                    0 <= j < i ==> as_blocks((#[trigger] dtos[j]).blocks@) == self.block_listing(
                        notes[j].id,
                    ),
            decreases notes.len() - i,
        {
            let note = notes[i].clone();
            let blocks = match self.block_repo.find_all_in_note(note.id) {
                Err(e) => return Err(e),
                Ok(blocks) => project_blocks(&blocks),
            };
            dtos.push(compose(note, blocks));
            i += 1;
        }
        proof {
            assert(as_notes(dtos@) =~= notes@);
            assert forall|j: int| 0 <= j < dtos.len() implies composes(
                self.notes(),
                self.blocks(),
                (#[trigger] dtos[j]).id,
                dtos[j],
            ) by {
                assert(note_of(dtos[j]) == notes[j]);
                assert(self.notes()[notes@[j].id] == notes@[j]);
            }
        }
        Ok(dtos)
    }

    /// Removes the note record only: its blocks stay stored.
    pub fn delete(&mut self, id: u128) -> (r: Result<(), CoreError>)
        ensures
            final(self).blocks() == old(self).blocks(),
            forall|n: u128| #[trigger] final(self).block_listing(n) == old(self).block_listing(n),
            r matches Err(e) ==> e is Database,
            r is Ok ==> final(self).notes() == old(self).notes().remove(id),
    {
        self.repo.delete(id)
    }

    /// Applies a partial update: only a given title replaces the stored one.
    pub fn update(&mut self, id: u128, data: NoteUpdateDTO) -> (r: Result<(), CoreError>)
        ensures
            final(self).blocks() == old(self).blocks(),
            forall|n: u128| #[trigger] final(self).block_listing(n) == old(self).block_listing(n),
            !old(self).notes().contains_key(id) ==> r is Err && final(self).notes() == old(
                self,
            ).notes(),
            !old(self).notes().contains_key(id) ==> forall|w: u128| #[trigger]
                final(self).listing(w) == old(self).listing(w),
            r matches Err(e) ==> e is Database || (e == CoreError::NotFound && !old(
                self,
            ).notes().contains_key(id)),
            r is Ok ==> final(self).notes() == old(self).notes().insert(
                id,
                retitled(old(self).notes()[id], data),
            ),
    {
        let found = match self.repo.find_one(id) {
            Err(e) => return Err(e),
            Ok(found) => found,
        };
        let mut note = match require_found(found) {
            Err(e) => return Err(e),
            Ok(note) => note,
        };
        if let Some(title) = data.title {
            note.title = title;
        }
        self.repo.save(note)
    }

    /// Gives the blocks of the note `id` the places that `blocks` names.
    /// Unless `blocks` names exactly the blocks of the note, the request is
    /// refused as a whole and no position changes. The positions are written
    /// block by block: when the store fails on the way, the blocks written
    /// before keep their new places.
    pub fn reorder_blocks(&mut self, id: u128, blocks: Vec<u128>) -> (r: Result<(), CoreError>)
        ensures
            final(self).notes() == old(self).notes(),
            forall|w: u128| #[trigger] final(self).listing(w) == old(self).listing(w),
            !names_note(old(self).blocks(), id, blocks@) ==> r is Err && final(self).blocks()
                == old(self).blocks(),
            !names_note(old(self).blocks(), id, blocks@) ==> forall|n: u128| #[trigger]
                final(self).block_listing(n) == old(self).block_listing(n),
            r matches Err(e) ==> e is Database || (e == CoreError::ServerError && !names_note(
                old(self).blocks(),
                id,
                blocks@,
            )),
            r is Ok ==> final(self).blocks() == reordered(old(self).blocks(), id, blocks@),
    {
        let note_blocks = match self.block_repo.find_all_in_note(id) {
            Err(e) => return Err(e),
            Ok(note_blocks) => note_blocks,
        };
        proof {
            lemma_names(self.blocks(), id, note_blocks@, blocks@);
        }
        let plan = match plan_reorder(&note_blocks, &blocks) {
            Err(e) => return Err(e),
            Ok(plan) => plan,
        };
        let ghost before = self.blocks();
        let mut k: usize = 0;
        while k < plan.len()
            invariant
                k <= plan.len(),
                plan.len() == note_blocks.len(),
                self.repo == old(self).repo,
                before == old(self).blocks(),
                names_note(before, id, blocks@),
                lists_note(before, id, note_blocks@),
                forall|i: int| 0 <= i < plan.len() ==> (#[trigger] plan[i]).id == note_blocks[i].id,
                forall|x: u128| self.blocks().contains_key(x) <==> before.contains_key(x),
                forall|j: int| 0 <= j < k ==> self.blocks()[(#[trigger] plan[j]).id] == plan[j],
                forall|x: u128|
                    before.contains_key(x) && !touched(plan@, k as int, x) ==> self.blocks()[x]
                        == #[trigger] before[x],
            decreases plan.len() - k,
        {
            let ghost current = self.blocks();
            let block = plan[k].clone();
            assert(in_note(before, id, note_blocks[k as int].id));
            match self.block_repo.save(block) {
                Err(e) => return Err(e),
                Ok(()) => {},
            }
            proof {
                assert(self.blocks() == current.insert(plan[k as int].id, plan[k as int]));
                assert forall|j: int| 0 <= j < k + 1 implies self.blocks()[(#[trigger] plan[j]).id]
                    == plan[j] by {
                    if j < k {
                        assert(note_blocks[j].id != note_blocks[k as int].id);
                    }
                }
                assert forall|x: u128|
                    before.contains_key(x) && !touched(plan@, k + 1, x) implies self.blocks()[x]
                        == #[trigger] before[x] by {
                    assert(plan@[k as int].id != x);
                    if touched(plan@, k as int, x) {
                        let j = choose|j: int| 0 <= j < k && (#[trigger] plan@[j]).id == x;
                        assert(0 <= j < k + 1 && plan@[j].id == x);
                    }
                }
            }
            k += 1;
        }
        proof {
            let target = reordered(before, id, blocks@);
            assert forall|x: u128| before.contains_key(x) implies self.blocks()[x] == target[x] by {
                if before[x].note_id == id {
                    assert(in_note(before, id, x));
                    assert(occurs(note_blocks@, x));
                    let i = choose|i: int|
                        0 <= i < note_blocks.len() && (#[trigger] note_blocks@[i]).id == x;
                    assert(before[note_blocks@[i].id] == note_blocks@[i]);
                    assert(plan[i].id == x);
                } else {
                    if touched(plan@, k as int, x) {
                        let j = choose|j: int| 0 <= j < k && (#[trigger] plan@[j]).id == x;
                        assert(in_note(before, id, note_blocks@[j].id));
                    }
                }
            }
            assert(self.blocks() =~= target);
        }
        Ok(())
    }
}

} // verus!
