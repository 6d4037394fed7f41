use crate::entities::block::{Block, BlockContent, BlockType};
use vstd::prelude::*;

verus! {

/// A block as callers see it.
#[derive(Debug)]
pub struct BlockDTO {
    pub id: u128,
    pub block_type: BlockType,
    pub content: BlockContent,
    pub position: i32,
    pub note_id: u128,
}

impl BlockDTO {
    /// The stored record this projection stands for.
    pub open spec fn as_block(self) -> Block {
        Block {
            id: self.id,
            block_type: self.block_type,
            content: self.content,
            note_id: self.note_id,
            position: self.position,
        }
    }

    /// The projection of a stored record.
    pub open spec fn of(value: Block) -> BlockDTO {
        BlockDTO {
            id: value.id,
            block_type: value.block_type,
            content: value.content,
            position: value.position,
            note_id: value.note_id,
        }
    }
}

impl Clone for BlockDTO {
    fn clone(&self) -> (r: Self)
        ensures
            r == *self,
    {
        BlockDTO {
            id: self.id,
            block_type: self.block_type,
            content: self.content.clone(),
            position: self.position,
            note_id: self.note_id,
        }
    }
}

impl From<Block> for BlockDTO {
    fn from(value: Block) -> (r: Self) {
        BlockDTO {
            id: value.id,
            block_type: value.block_type,
            content: value.content,
            position: value.position,
            note_id: value.note_id,
        }
    }
}

impl vstd::std_specs::convert::FromSpecImpl<Block> for BlockDTO {
    open spec fn obeys_from_spec() -> bool {
        true
    }

    open spec fn from_spec(value: Block) -> Self {
        BlockDTO::of(value)
    }
}

/// What a caller supplies to create a block.
#[derive(Debug)]
pub struct BlockCreateDTO {
    pub block_type: BlockType,
    pub content: BlockContent,
    pub note_id: u128,
}

impl Clone for BlockCreateDTO {
    fn clone(&self) -> (r: Self)
        ensures
            r == *self,
    {
        BlockCreateDTO {
            block_type: self.block_type,
            content: self.content.clone(),
            note_id: self.note_id,
        }
    }
}

/// A partial update of a block: absent fields keep their stored value.
#[derive(Debug)]
pub struct BlockUpdateDTO {
    pub id: u128,
    pub block_type: Option<BlockType>,
    pub content: Option<BlockContent>,
}

impl Clone for BlockUpdateDTO {
    fn clone(&self) -> (r: Self)
        ensures
            r == *self,
    {
        let content = match &self.content {
            Some(c) => Some(c.clone()),
            None => None,
        };
        BlockUpdateDTO { id: self.id, block_type: self.block_type, content }
    }
}

} // verus!
