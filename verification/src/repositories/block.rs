use crate::entities::block::Block;
use crate::errors::CoreError;
use crate::repositories::{lookup, replaced};
use vstd::prelude::*;

verus! {

/// `id` is stored and belongs to the note `note_id`.
pub open spec fn in_note(rows: Map<u128, Block>, note_id: u128, id: u128) -> bool {
    rows.contains_key(id) && rows[id].note_id == note_id
}

/// Some element of `s` carries the identifier `id`.
pub open spec fn occurs(s: Seq<Block>, id: u128) -> bool {
    exists|i: int| 0 <= i < s.len() && (#[trigger] s[i]).id == id
}

/// `s` is the listing of the note `note_id`: exactly the stored blocks of
/// that note, each once, ascending by position.
pub open spec fn lists_note(rows: Map<u128, Block>, note_id: u128, s: Seq<Block>) -> bool {
    &&& forall|i: int|
        0 <= i < s.len() ==> in_note(rows, note_id, (#[trigger] s[i]).id) && rows[s[i].id] == s[i]
    &&& forall|id: u128| #[trigger] in_note(rows, note_id, id) ==> occurs(s, id)
    &&& forall|i: int, j: int|
        0 <= i < j < s.len() ==> (#[trigger] s[i]).id != (#[trigger] s[j]).id && s[i].position
            <= s[j].position
}

/// `k` is the place of a block at `position` in the listing `s`: behind
/// every block from the front on that stands at or before that position.
pub open spec fn is_place(s: Seq<Block>, position: int, k: int) -> bool {
    &&& 0 <= k <= s.len()
    &&& forall|j: int| 0 <= j < k ==> (#[trigger] s[j]).position <= position
    &&& k < s.len() ==> s[k].position > position
}

/// The place of a block at `position` in the listing `s`.
pub open spec fn place_behind(s: Seq<Block>, position: int) -> int {
    choose|k: int| is_place(s, position, k)
}

/// The listing `s` with `block` put in its place.
pub open spec fn placed(s: Seq<Block>, block: Block) -> Seq<Block> {
    s.insert(place_behind(s, block.position as int), block)
}

/// There is one place only.
pub proof fn lemma_place(s: Seq<Block>, position: int, k: int)
    requires
        is_place(s, position, k),
    ensures
        place_behind(s, position) == k,
{
    let c = place_behind(s, position);
    assert(is_place(s, position, c));
    if c < k {
        assert(s[c].position <= position);
    }
    if k < c {
        assert(s[k].position <= position);
    }
}

/// A block that stands behind every block of a listing is put last.
pub proof fn lemma_placed_last(s: Seq<Block>, block: Block)
    requires
        forall|j: int| 0 <= j < s.len() ==> (#[trigger] s[j]).position < block.position,
    ensures
        placed(s, block) == s.push(block),
{
    lemma_place(s, block.position as int, s.len() as int);
    assert(s.insert(s.len() as int, block) =~= s.push(block));
}

/// Storage of blocks.
pub trait BlockRepo {
    /// The stored blocks by identifier: the ghost model that the contracts
    /// below speak of. An implementation that is verified states its own.
    open spec fn rows(&self) -> Map<u128, Block> {
        Map::empty()
    }

    /// The blocks of a note in the order in which the store answers for it:
    /// the ghost model of that order. It ascends by position; a new block
    /// goes behind the blocks that stand at or before its position.
    open spec fn listing(&self, note_id: u128) -> Seq<Block> {
        Seq::empty()
    }

    fn create(&mut self, data: Block) -> (r: Result<(), CoreError>)
        ensures
            r matches Err(e) ==> e is Database,
            r is Ok ==> forall|n: u128| #[trigger]
                final(self).listing(n) == if n == data.note_id {
                    placed(old(self).listing(n), data)
                } else {
                    old(self).listing(n)
                },
            r is Ok ==> !old(self).rows().contains_key(data.id),
            r is Ok ==> final(self).rows() == old(self).rows().insert(data.id, data),
    ;

    fn find_one(&self, id: u128) -> (r: Result<Option<Block>, CoreError>)
        ensures
            r matches Err(e) ==> e is Database,
            r matches Ok(found) ==> found == lookup(self.rows(), id) && (found matches Some(b)
                ==> b.id == id),
    ;

    fn find_all_in_note(&self, note_id: u128) -> (r: Result<Vec<Block>, CoreError>)
        ensures
            r matches Err(e) ==> e is Database,
            r matches Ok(blocks) ==> blocks@ == self.listing(note_id),
            r matches Ok(blocks) ==> lists_note(self.rows(), note_id, blocks@),
    ;

    fn delete(&mut self, id: u128) -> (r: Result<(), CoreError>)
        ensures
            r matches Err(e) ==> e is Database,
            r is Ok ==> final(self).rows() == old(self).rows().remove(id),
    ;

    fn save(&mut self, data: Block) -> (r: Result<(), CoreError>)
        ensures
            r matches Err(e) ==> e is Database,
            r is Ok ==> final(self).rows() == replaced(old(self).rows(), data.id, data),
    ;
}

} // verus!
