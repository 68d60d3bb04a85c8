//! The Markdown document model used by the page analysis.
use vstd::prelude::*;

verus! {

/// A Markdown document: its source and its blocks in order.
#[derive(Debug, Clone)]
pub struct Document {
    pub raw: String,
    pub blocks: Vec<Block>,
}

/// One block of a Markdown document.
#[derive(Debug, Clone)]
pub struct Block {
    pub kind: BlockKind,
    /// The block's text with inline Markdown removed.
    pub text: String,
    /// The block's source text.
    pub raw: String,
    /// The block's position in the document.
    pub index: usize,
}

/// The kind of a Markdown block.
#[derive(Debug, Clone)]
pub enum BlockKind {
    Heading { level: u8 },
    Paragraph,
    ListItem { ordered: bool, list_id: usize },
    CodeBlock { info: Option<String> },
    BlockQuote,
}

/// Mathematical model of a `BlockKind`.
pub enum KindView {
    Heading { level: u8 },
    Paragraph,
    ListItem { ordered: bool, list_id: usize },
    CodeBlock { info: Option<Seq<char>> },
    BlockQuote,
}

/// Mathematical model of a `Block`.
pub struct BlockView {
    pub kind: KindView,
    pub text: Seq<char>,
    pub raw: Seq<char>,
    pub index: usize,
}

/// Mathematical model of a `Document`.
pub struct DocumentView {
    pub raw: Seq<char>,
    pub blocks: Seq<BlockView>,
}

/// The model of an optional string.
pub open spec fn opt_view(o: Option<String>) -> Option<Seq<char>> {
    match o {
        Some(s) => Some(s@),
        None => None,
    }
}

impl View for BlockKind {
    type V = KindView;

    open spec fn view(&self) -> KindView {
        match self {
            BlockKind::Heading { level } => KindView::Heading { level: *level },
            BlockKind::Paragraph => KindView::Paragraph,
            BlockKind::ListItem { ordered, list_id } => KindView::ListItem {
                ordered: *ordered,
                list_id: *list_id,
            },
            BlockKind::CodeBlock { info } => KindView::CodeBlock { info: opt_view(*info) },
            BlockKind::BlockQuote => KindView::BlockQuote,
        }
    }
}

impl View for Block {
    type V = BlockView;

    open spec fn view(&self) -> BlockView {
        BlockView { kind: self.kind@, text: self.text@, raw: self.raw@, index: self.index }
    }
}

/// The models of a sequence of blocks.
pub open spec fn block_views(blocks: Seq<Block>) -> Seq<BlockView> {
    blocks.map_values(|b: Block| b@)
}

impl View for Document {
    type V = DocumentView;

    open spec fn view(&self) -> DocumentView {
        DocumentView { raw: self.raw@, blocks: block_views(self.blocks@) }
    }
}

/// The display label of a block kind.
pub open spec fn kind_label(k: KindView) -> Seq<char> {
    match k {
        KindView::Heading { .. } => "Heading"@,
        KindView::Paragraph => "Paragraph"@,
        KindView::ListItem { .. } => "List item"@,
        KindView::CodeBlock { .. } => "Code block"@,
        KindView::BlockQuote => "Block quote"@,
    }
}

impl Document {
    /// A document with the given source and blocks.
    pub fn new(raw: String, blocks: Vec<Block>) -> (r: Self)
        ensures
            r.raw == raw,
            r.blocks == blocks,
    {
        Self { raw, blocks }
    }
}

impl Block {
    /// A block with the given fields.
    pub fn new(kind: BlockKind, text: String, raw: String, index: usize) -> (r: Self)
        ensures
            r.kind == kind,
            r.text == text,
            r.raw == raw,
            r.index == index,
    {
        Self { kind, text, raw, index }
    }
}

impl BlockKind {
    /// The display label of this kind.
    pub fn label(&self) -> (r: &'static str)
        ensures
            r@ == kind_label(self@),
    {
        match self {
            BlockKind::Heading { .. } => "Heading",
            BlockKind::Paragraph => "Paragraph",
            BlockKind::ListItem { .. } => "List item",
            BlockKind::CodeBlock { .. } => "Code block",
            BlockKind::BlockQuote => "Block quote",
        }
    }
}

} // verus!
