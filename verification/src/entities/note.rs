use vstd::prelude::*;

verus! {

/// How a note's icon is given: an emoji or the address of an image.
#[derive(Clone, Copy, Debug, PartialEq, Eq, Structural)]
pub enum NoteIconType {
    Emoji,
    External,
}

impl NoteIconType {
    /// The persisted spelling of the icon type.
    pub open spec fn name(self) -> Seq<char> {
        match self {
            NoteIconType::Emoji => "Emoji"@,
            NoteIconType::External => "External"@,
        }
    }

    pub fn as_str(&self) -> (r: &'static str)
        ensures
            r@ == self.name(),
    {
        match self {
            NoteIconType::Emoji => "Emoji",
            NoteIconType::External => "External",
        }
    }
}

/// A titled document of a workspace, optionally nested under another note.
#[derive(Debug)]
pub struct Note {
    pub id: u128,
    pub title: String,
    pub icon_type: NoteIconType,
    /// Emoji or URL
    pub icon_data: String,
    pub workspace_id: u128,
    pub parent_note: Option<u128>,
}

impl Clone for Note {
    fn clone(&self) -> (r: Self)
        ensures
            r == *self,
    {
        Note {
            id: self.id,
            title: self.title.clone(),
            icon_type: self.icon_type,
            icon_data: self.icon_data.clone(),
            workspace_id: self.workspace_id,
            parent_note: self.parent_note,
        }
    }
}

} // verus!
