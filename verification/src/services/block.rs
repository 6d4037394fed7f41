use crate::dto::block::{BlockCreateDTO, BlockDTO, BlockUpdateDTO};
use crate::entities::block::{Block, BlockContent, BlockType};
use crate::errors::CoreError;
use crate::repositories::block::{in_note, lemma_placed_last, lists_note, occurs, BlockRepo};
use crate::repositories::fresh_id;
use crate::services::require_found;
use vstd::prelude::*;

verus! {

/// The stored records that a listing of projections stands for.
pub open spec fn as_blocks(s: Seq<BlockDTO>) -> Seq<Block> {
    s.map_values(|d: BlockDTO| d.as_block())
}

/// `p` is the position a new block of the note `note_id` takes: zero in a
/// note without blocks, else one past the greatest position in the note.
pub open spec fn is_next_position(rows: Map<u128, Block>, note_id: u128, p: int) -> bool {
    ||| (p == 0 && forall|id: u128| !#[trigger] in_note(rows, note_id, id))
    ||| ((exists|id: u128| #[trigger] in_note(rows, note_id, id) && rows[id].position == p - 1)
        && (forall|id: u128| #[trigger] in_note(rows, note_id, id) ==> rows[id].position < p))
}

/// Some block of the note `note_id` already has the greatest position
/// there is, so no further block can be placed after it.
pub open spec fn note_is_full(rows: Map<u128, Block>, note_id: u128) -> bool {
    exists|id: u128| #[trigger] in_note(rows, note_id, id) && rows[id].position == i32::MAX
}

/// The stored block after a partial update: a given field replaces the
/// stored one, identity, note and position stay.
pub open spec fn merged(stored: Block, data: BlockUpdateDTO) -> Block {
    Block {
        id: stored.id,
        block_type: match data.block_type {
            Some(t) => t,
            None => stored.block_type,
        },
        content: match data.content {
            Some(c) => c,
            None => stored.content,
        },
        note_id: stored.note_id,
        position: stored.position,
    }
}

/// The projections of `blocks`, in the same order.
pub fn project_blocks(blocks: &Vec<Block>) -> (r: Vec<BlockDTO>)
    ensures
        r.len() == blocks.len(),
        forall|i: int| 0 <= i < r.len() ==> r[i] == BlockDTO::of(blocks[i]),
        as_blocks(r@) == blocks@,
{
    let mut out: Vec<BlockDTO> = Vec::new();
    let mut i: usize = 0;
    while i < blocks.len()
        invariant
            i <= blocks.len(),
            out.len() == i,
            forall|k: int| 0 <= k < i ==> out[k] == BlockDTO::of(blocks[k]),
        decreases blocks.len() - i,
    {
        out.push(BlockDTO::from(blocks[i].clone()));
        i += 1;
    }
    proof {
        assert(as_blocks(out@) =~= blocks@);
    }
    out
}

/// Accepts a payload exactly when it has the shape of the declared kind.
pub fn validate_content(block_type: &BlockType, content: &BlockContent) -> (r: Result<
    (),
    CoreError,
>)
    ensures
        r == if content.kind() == *block_type {
            Ok::<(), CoreError>(())
        } else {
            Err::<(), CoreError>(CoreError::BlockTypeMismatch)
        },
{
    if block_type.is_matching_content_type(content) {
        Ok(())
    } else {
        Err(CoreError::BlockTypeMismatch)
    }
}

/// The position after the last block of a listing that ascends by position;
/// zero for an empty listing. There is no position after the greatest one.
pub fn next_position(current: &Vec<BlockDTO>) -> (r: Result<i32, CoreError>)
    ensures
        r == if current.len() == 0 {
            Ok::<i32, CoreError>(0)
        } else if current@.last().position < i32::MAX {
            Ok::<i32, CoreError>((current@.last().position + 1) as i32)
        } else {
            Err::<i32, CoreError>(CoreError::ServerError)
        },
{
    if current.len() == 0 {
        Ok(0)
    } else {
        let last = current[current.len() - 1].position;
        if last < i32::MAX {
            Ok(last + 1)
        } else {
            Err(CoreError::ServerError)
        }
    }
}

/// Applies a partial update to a stored block and accepts the outcome
/// exactly when its payload has the shape of its kind.
pub fn merge_update(stored: Block, data: BlockUpdateDTO) -> (r: Result<Block, CoreError>)
    ensures
        r == if merged(stored, data).consistent() {
            Ok::<Block, CoreError>(merged(stored, data))
        } else {
            Err::<Block, CoreError>(CoreError::BlockTypeMismatch)
        },
{
    let mut block = stored;
    if let Some(block_type) = data.block_type {
        block.block_type = block_type;
    }
    if let Some(content) = data.content {
        block.content = content;
    }
    if !block.block_type.is_matching_content_type(&block.content) {
        return Err(CoreError::BlockTypeMismatch);
    }
    Ok(block)
}

/// On the listing of a note, `next_position` yields the position one past
/// the greatest in the note, and fails exactly when the note is full.
pub proof fn lemma_next_position(rows: Map<u128, Block>, note_id: u128, current: Seq<BlockDTO>)
    requires
        lists_note(rows, note_id, as_blocks(current)),
    ensures
        current.len() == 0 ==> is_next_position(rows, note_id, 0),
        current.len() > 0 ==> is_next_position(rows, note_id, current.last().position + 1),
        note_is_full(rows, note_id) <==> current.len() > 0 && current.last().position == i32::MAX,
{
    let s = as_blocks(current);
    if current.len() == 0 {
        assert forall|id: u128| !#[trigger] in_note(rows, note_id, id) by {
            if in_note(rows, note_id, id) {
                assert(occurs(s, id));
            }
        }
    } else {
        let last = s[s.len() - 1];
        assert(in_note(rows, note_id, last.id) && rows[last.id] == last);
        assert forall|id: u128| #[trigger] in_note(rows, note_id, id) implies rows[id].position
            <= last.position by {
            assert(occurs(s, id));
            let i = choose|i: int| 0 <= i < s.len() && (#[trigger] s[i]).id == id;
            assert(rows[s[i].id] == s[i]);
            if i < s.len() - 1 {
                assert(s[i].position <= s[s.len() - 1].position);
            }
        }
    }
}

/// The rules of blocks: a payload always has the shape of its declared
/// kind, and a new block goes after the last one of its note.
#[derive(Clone)]
pub struct BlockService<R: BlockRepo> {
    repo: R,
}

impl<R: BlockRepo> BlockService<R> {
    /// The stored blocks by identifier.
    pub closed spec fn rows(&self) -> Map<u128, Block> {
        self.repo.rows()
    }

    /// The blocks of a note in the order in which the store answers for
    /// it, ascending by position.
    pub closed spec fn listing(&self, note_id: u128) -> Seq<Block> {
        self.repo.listing(note_id)
    }

    pub fn new(repo: R) -> (r: Self)
        ensures
            r.rows() == repo.rows(),
            forall|n: u128| #[trigger] r.listing(n) == repo.listing(n),
    {
        Self { repo }
    }

    /// Stores a new block at the end of its note. A payload that does not
    /// have the shape of the declared kind is refused before the store is
    /// touched.
    pub fn create(&mut self, data: BlockCreateDTO) -> (r: Result<BlockDTO, CoreError>)
        ensures
            data.content.kind() != data.block_type ==> r == Err::<BlockDTO, CoreError>(
                CoreError::BlockTypeMismatch,
            ),
            data.content.kind() != data.block_type || note_is_full(
                old(self).rows(),
                data.note_id,
            ) ==> r is Err && final(self).rows() == old(self).rows(),
            data.content.kind() != data.block_type || note_is_full(
                old(self).rows(),
                data.note_id,
            ) ==> forall|n: u128| #[trigger] final(self).listing(n) == old(self).listing(n),
            r matches Err(e) ==> {
                ||| e is Database
                ||| e == CoreError::BlockTypeMismatch && data.content.kind() != data.block_type
                ||| e == CoreError::ServerError && note_is_full(old(self).rows(), data.note_id)
            },
            r matches Ok(dto) ==> {
                &&& dto.block_type == data.block_type
                &&& dto.content == data.content
                &&& dto.note_id == data.note_id
                &&& dto.as_block().consistent()
                &&& !old(self).rows().contains_key(dto.id)
                &&& is_next_position(old(self).rows(), data.note_id, dto.position as int)
                &&& final(self).rows() == old(self).rows().insert(dto.id, dto.as_block())
                &&& forall|n: u128| #[trigger]
                    final(self).listing(n) == if n == data.note_id {
                        old(self).listing(n).push(dto.as_block())
                    } else {
                        old(self).listing(n)
                    }
            },
    {
        match validate_content(&data.block_type, &data.content) {
            Err(e) => return Err(e),
            Ok(()) => {},
        }
        let current = match self.get_all_in_note(data.note_id) {
            Err(e) => return Err(e),
            Ok(current) => current,
        };
        proof {
            lemma_next_position(self.rows(), data.note_id, current@);
        }
        let position = match next_position(&current) {
            Err(e) => return Err(e),
            Ok(position) => position,
        };
        let id = fresh_id();
        let block = Block {
            id,
            block_type: data.block_type,
            content: data.content,
            note_id: data.note_id,
            position,
        };
        proof {
            let listed = self.listing(data.note_id);
            assert(listed == as_blocks(current@));
            assert forall|j: int| 0 <= j < listed.len() implies (#[trigger] listed[j]).position
                < block.position by {
                if j < listed.len() - 1 {
                    assert(listed[j].position <= listed[listed.len() - 1].position);
                }
            }
            lemma_placed_last(listed, block);
        }
        match self.repo.create(block) {
            Err(e) => return Err(e),
            Ok(()) => {},
        }
        self.find_one(id)
    }

    pub fn find_one(&self, id: u128) -> (r: Result<BlockDTO, CoreError>)
        ensures
            !self.rows().contains_key(id) ==> r is Err,
            r matches Err(e) ==> e is Database || (e == CoreError::NotFound
                && !self.rows().contains_key(id)),
            r matches Ok(dto) ==> self.rows().contains_key(id) && dto == BlockDTO::of(
                self.rows()[id],
            ) && dto.id == id,
    {
        let found = match self.repo.find_one(id) {
            Err(e) => return Err(e),
            Ok(found) => found,
        };
        match require_found(found) {
            Err(e) => Err(e),
            Ok(block) => Ok(BlockDTO::from(block)),
        }
    }

    /// The blocks of a note, ascending by position.
    pub fn get_all_in_note(&self, note_id: u128) -> (r: Result<Vec<BlockDTO>, CoreError>)
        ensures
            r matches Err(e) ==> e is Database,
            r matches Ok(blocks) ==> as_blocks(blocks@) == self.listing(note_id),
            r matches Ok(blocks) ==> blocks.len() == self.listing(note_id).len(),
            r matches Ok(blocks) ==> forall|i: int|
                0 <= i < blocks.len() ==> (#[trigger] blocks[i]).as_block() == self.listing(
                    note_id,
                )[i],
            r matches Ok(blocks) ==> lists_note(self.rows(), note_id, as_blocks(blocks@)),
    {
        match self.repo.find_all_in_note(note_id) {
            Err(e) => Err(e),
            Ok(blocks) => Ok(project_blocks(&blocks)),
        }
    }

    pub fn delete(&mut self, id: u128) -> (r: Result<(), CoreError>)
        ensures
            r matches Err(e) ==> e is Database,
            r is Ok ==> final(self).rows() == old(self).rows().remove(id),
    {
        self.repo.delete(id)
    }

    /// Replaces a stored block by `block`, keeping the note it belongs to.
    pub fn save(&mut self, block: BlockDTO) -> (r: Result<(), CoreError>)
        ensures
            !old(self).rows().contains_key(block.id) ==> r is Err && final(self).rows() == old(
                self,
            ).rows(),
            !old(self).rows().contains_key(block.id) ==> forall|n: u128| #[trigger]
                final(self).listing(n) == old(self).listing(n),
            r matches Err(e) ==> e is Database || (e == CoreError::NotFound && !old(
                self,
            ).rows().contains_key(block.id)),
            r is Ok ==> final(self).rows() == old(self).rows().insert(
                block.id,
                Block {
                    id: block.id,
                    block_type: block.block_type,
                    content: block.content,
                    position: block.position,
                    note_id: old(self).rows()[block.id].note_id,
                },
            ),
    {
        let found = match self.repo.find_one(block.id) {
            Err(e) => return Err(e),
            Ok(found) => found,
        };
        let stored = match require_found(found) {
            Err(e) => return Err(e),
            Ok(stored) => stored,
        };
        self.repo.save(
            Block {
                id: block.id,
                block_type: block.block_type,
                content: block.content,
                position: block.position,
                note_id: stored.note_id,
            },
        )
    }

    /// Applies a partial update. The outcome is checked again before it is
    /// stored: a payload that no longer has the shape of the kind is refused
    /// and the stored block stays as it was.
    pub fn update(&mut self, data: BlockUpdateDTO) -> (r: Result<(), CoreError>)
        ensures
            !old(self).rows().contains_key(data.id) || !merged(
                old(self).rows()[data.id],
                data,
            ).consistent() ==> r is Err && final(self).rows() == old(self).rows(),
            !old(self).rows().contains_key(data.id) || !merged(
                old(self).rows()[data.id],
                data,
            ).consistent() ==> forall|n: u128| #[trigger]
                final(self).listing(n) == old(self).listing(n),
            r matches Err(e) ==> {
                ||| e is Database
                ||| e == CoreError::NotFound && !old(self).rows().contains_key(data.id)
                ||| e == CoreError::BlockTypeMismatch && old(self).rows().contains_key(data.id)
                    && !merged(old(self).rows()[data.id], data).consistent()
            },
            r is Ok ==> merged(old(self).rows()[data.id], data).consistent(),
            r is Ok ==> final(self).rows() == old(self).rows().insert(
                data.id,
                merged(old(self).rows()[data.id], data),
            ),
    {
        let found = match self.repo.find_one(data.id) {
            Err(e) => return Err(e),
            Ok(found) => found,
        };
        let stored = match require_found(found) {
            Err(e) => return Err(e),
            Ok(stored) => stored,
        };
        let block = match merge_update(stored, data) {
            Err(e) => return Err(e),
            Ok(block) => block,
        };
        self.repo.save(block)
    }
}

} // verus!
