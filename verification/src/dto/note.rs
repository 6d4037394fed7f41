use crate::dto::block::BlockDTO;
use crate::entities::note::NoteIconType;
use vstd::prelude::*;

verus! {

/// A note together with its blocks, ascending by position.
#[derive(Clone, Debug)]
pub struct NoteDTO {
    pub id: u128,
    pub title: String,
    pub icon_type: NoteIconType,
    pub icon_data: String,
    pub workspace_id: u128,
    pub blocks: Vec<BlockDTO>,
    pub parent_note: Option<u128>,
}

/// What a caller supplies to create a note.
#[derive(Debug)]
pub struct NoteCreateDTO {
    pub title: String,
    pub workspace_id: u128,
    pub parent_note: Option<u128>,
}

impl Clone for NoteCreateDTO {
    fn clone(&self) -> (r: Self)
        ensures
            r == *self,
    {
        NoteCreateDTO {
            title: self.title.clone(),
            workspace_id: self.workspace_id,
            parent_note: self.parent_note,
        }
    }
}

/// A partial update of a note: absent fields keep their stored value.
#[derive(Debug)]
pub struct NoteUpdateDTO {
    pub title: Option<String>,
}

impl Clone for NoteUpdateDTO {
    fn clone(&self) -> (r: Self)
        ensures
            r == *self,
    {
        let title = match &self.title {
            Some(t) => Some(t.clone()),
            None => None,
        };
        NoteUpdateDTO { title }
    }
}

} // verus!
