use vstd::prelude::*;

verus! {

/// The kind of content a block declares.
#[derive(Clone, Copy, Debug, PartialEq, Eq, Structural)]
pub enum BlockType {
    PlainText,
    Checkbox,
    Image,
    Code,
}

impl BlockType {
    /// The persisted spelling of the kind.
    pub open spec fn name(self) -> Seq<char> {
        match self {
            BlockType::PlainText => "PlainText"@,
            BlockType::Checkbox => "Checkbox"@,
            BlockType::Image => "Image"@,
            BlockType::Code => "Code"@,
        }
    }

    pub fn as_str(&self) -> (r: &'static str)
        ensures
            r@ == self.name(),
    {
        match self {
            BlockType::PlainText => "PlainText",
            BlockType::Checkbox => "Checkbox",
            BlockType::Image => "Image",
            BlockType::Code => "Code",
        }
    }

    /// Whether `content` has the shape this kind asks for.
    pub fn is_matching_content_type(&self, content: &BlockContent) -> (r: bool)
        ensures
            r == (content.kind() == *self),
    {
        match (self, content) {
            (BlockType::PlainText, BlockContent::PlainText(_)) => true,
            (BlockType::Checkbox, BlockContent::Checkbox(_)) => true,
            (BlockType::Image, BlockContent::Image(_)) => true,
            (BlockType::Code, BlockContent::Code(_)) => true,
            _ => false,
        }
    }
}

#[derive(Debug)]
pub struct PlainTextContent {
    pub text: String,
}

#[derive(Debug)]
pub struct CheckboxContent {
    pub text: String,
    pub status: String,
}

#[derive(Debug)]
pub struct ImageContent {
    pub url: String,
    pub alt: Option<String>,
}

#[derive(Debug)]
pub struct CodeContent {
    pub code: String,
    pub language: String,
}

/// The payload of a block; each variant is one shape.
#[derive(Debug)]
pub enum BlockContent {
    PlainText(PlainTextContent),
    Checkbox(CheckboxContent),
    Image(ImageContent),
    Code(CodeContent),
}

impl Clone for PlainTextContent {
    fn clone(&self) -> (r: Self)
        ensures
            r == *self,
    {
        PlainTextContent { text: self.text.clone() }
    }
}

impl Clone for CheckboxContent {
    fn clone(&self) -> (r: Self)
        ensures
            r == *self,
    {
        CheckboxContent { text: self.text.clone(), status: self.status.clone() }
    }
}

impl Clone for ImageContent {
    fn clone(&self) -> (r: Self)
        ensures
            r == *self,
    {
        let alt = match &self.alt {
            Some(a) => Some(a.clone()),
            None => None,
        };
        ImageContent { url: self.url.clone(), alt }
    }
}

impl Clone for CodeContent {
    fn clone(&self) -> (r: Self)
        ensures
            r == *self,
    {
        CodeContent { code: self.code.clone(), language: self.language.clone() }
    }
}

impl Clone for BlockContent {
    fn clone(&self) -> (r: Self)
        ensures
            r == *self,
    {
        match self {
            BlockContent::PlainText(c) => BlockContent::PlainText(c.clone()),
            BlockContent::Checkbox(c) => BlockContent::Checkbox(c.clone()),
            BlockContent::Image(c) => BlockContent::Image(c.clone()),
            BlockContent::Code(c) => BlockContent::Code(c.clone()),
        }
    }
}

impl BlockContent {
    /// The kind whose shape this payload has.
    pub open spec fn kind(self) -> BlockType {
        match self {
            BlockContent::PlainText(_) => BlockType::PlainText,
            BlockContent::Checkbox(_) => BlockType::Checkbox,
            BlockContent::Image(_) => BlockType::Image,
            BlockContent::Code(_) => BlockType::Code,
        }
    }

    pub fn as_str(&self) -> (r: &'static str)
        ensures
            r@ == self.kind().name(),
    {
        match self {
            BlockContent::PlainText(_) => "PlainText",
            BlockContent::Checkbox(_) => "Checkbox",
            BlockContent::Image(_) => "Image",
            BlockContent::Code(_) => "Code",
        }
    }
}

/// Two kinds are spelled alike only when they are the same kind, so
/// comparing spellings decides whether a payload matches a kind.
pub proof fn lemma_names_distinct(a: BlockType, b: BlockType)
    ensures
        (a.name() == b.name()) <==> (a == b),
{
    reveal_strlit("PlainText");
    reveal_strlit("Checkbox");
    reveal_strlit("Image");
    reveal_strlit("Code");
    if a != b {
        assert(a.name().len() != b.name().len() || a.name()[0] != b.name()[0]);
    }
}

/// A content unit of a note.
#[derive(Debug)]
pub struct Block {
    pub id: u128,
    pub block_type: BlockType,
    pub content: BlockContent,
    pub note_id: u128,
    pub position: i32,
}

impl Clone for Block {
    fn clone(&self) -> (r: Self)
        ensures
            r == *self,
    {
        Block {
            id: self.id,
            block_type: self.block_type,
            content: self.content.clone(),
            note_id: self.note_id,
            position: self.position,
        }
    }
}

impl Block {
    /// The declared kind and the payload's shape agree.
    pub open spec fn consistent(self) -> bool {
        self.content.kind() == self.block_type
    }

    /// Builds a block from the columns of a stored row. A row whose payload
    /// does not have the shape of its declared kind yields nothing.
    pub fn from_row(
        id: u128,
        note_id: u128,
        block_type: BlockType,
        position: i32,
        content: BlockContent,
    ) -> (r: Option<Block>)
        ensures
            r == if content.kind() == block_type {
                Some(Block { id, block_type, content, note_id, position })
            } else {
                None::<Block>
            },
    {
        if block_type.is_matching_content_type(&content) {
            Some(Block { id, block_type, content, note_id, position })
        } else {
            None
        }
    }
}

} // verus!
