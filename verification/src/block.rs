//! Blocks of a plain text: paragraphs, headings, list items and notes, each
//! with its sentences.
use vstd::prelude::*;
use crate::error::IntegrityError;
use crate::pattern::{Pattern, regex_compiles, regex_find_all, regex_split, texts};
use crate::text::{
    chars_of, starts_with, string_of, trim, trim_chars, utf8_len, utf8_len_below, starts_with_chars,
};

verus! {

/// The kind of a text block.
#[derive(Debug, Clone, Copy, PartialEq, Eq, Structural)]
pub enum BlockKind {
    /// An ordinary paragraph.
    Paragraph,
    /// A heading.
    Heading,
    /// A list item.
    ListItem,
    /// A note or remark.
    Note,
    /// Anything else.
    Other,
}

/// A block of text.
#[derive(Debug, Clone)]
pub struct Block {
    pub kind: BlockKind,
    pub text: String,
    /// The line the block starts at (counting from 0).
    pub line_number: usize,
    pub sentences: Vec<String>,
}

/// Mathematical model of a `Block`.
pub struct BlockView {
    pub kind: BlockKind,
    pub text: Seq<char>,
    pub line_number: usize,
    pub sentences: Seq<Seq<char>>,
}

impl View for Block {
    type V = BlockView;

    open spec fn view(&self) -> BlockView {
        BlockView {
            kind: self.kind,
            text: self.text@,
            line_number: self.line_number,
            sentences: texts(self.sentences@),
        }
    }
}

/// The pattern of a numbered list marker: digits, `.` or `)`, whitespace.
pub open spec fn numbered_list_pattern() -> Seq<char> {
    r"^\d+[\.\)]\s"@
}

/// The pattern of sentence ends: `。`, `！`, `？` and line breaks.
pub open spec fn sentence_end_pattern() -> Seq<char> {
    r"[。！？\n]+"@
}

/// `t` begins with the character `c`.
pub open spec fn begins(t: Seq<char>, c: char) -> bool {
    t.len() > 0 && t[0] == c
}

/// The kind of a block with text `text`.
pub open spec fn kind_of(text: Seq<char>) -> BlockKind {
    let t = trim(text);
    if begins(t, '#') || (begins(t, '【') && utf8_len(t) < 50) {
        BlockKind::Heading
    } else if begins(t, '-') || begins(t, '・') || begins(t, '•') || starts_with(t, seq!['*', ' ']) {
        BlockKind::ListItem
    } else if regex_find_all(numbered_list_pattern(), t).len() > 0 {
        BlockKind::ListItem
    } else if begins(t, '※') || begins(t, '＊') || starts_with(t, seq!['注', ':']) {
        BlockKind::Note
    } else {
        BlockKind::Paragraph
    }
}

/// The non-blank pieces, trimmed.
pub open spec fn kept_sentences(pieces: Seq<Seq<char>>) -> Seq<Seq<char>>
    decreases pieces.len(),
{
    if pieces.len() == 0 {
        Seq::empty()
    } else {
        let prev = kept_sentences(pieces.drop_last());
        if trim(pieces.last()).len() > 0 {
            prev.push(trim(pieces.last()))
        } else {
            prev
        }
    }
}

/// The sentences of `text`: the pieces between sentence ends, trimmed, the
/// blank ones left out.
pub open spec fn sentences_of(text: Seq<char>) -> Seq<Seq<char>> {
    kept_sentences(regex_split(sentence_end_pattern(), text))
}

/// The block made of `text` starting at `line`.
pub open spec fn block_of(text: Seq<char>, line: usize) -> BlockView {
    BlockView { kind: kind_of(text), text: text, line_number: line, sentences: sentences_of(text) }
}

/// Both patterns of block reading compile.
pub open spec fn block_patterns_compile() -> bool {
    regex_compiles(numbered_list_pattern()) && regex_compiles(sentence_end_pattern())
}

/// The compiled patterns that reading a block needs.
pub struct BlockPatterns {
    numbered_list: Pattern,
    sentence_end: Pattern,
}

impl BlockPatterns {
    /// The patterns are the block-reading ones.
    pub closed spec fn wf(&self) -> bool {
        self.numbered_list@ == numbered_list_pattern() && self.sentence_end@
            == sentence_end_pattern()
    }

    /// Compiles the patterns.
    pub fn new() -> (r: Result<Self, IntegrityError>)
        ensures
            r is Ok <==> block_patterns_compile(),
            r matches Ok(p) ==> p.wf(),
    {
        let numbered_list = Pattern::new(r"^\d+[\.\)]\s")?;
        let sentence_end = Pattern::new(r"[。！？\n]+")?;
        Ok(Self { numbered_list, sentence_end })
    }
}

impl Block {
    /// The block made of `text` starting at `line_number`; fails only when
    /// a block-reading pattern does not compile.
    pub fn new(text: String, line_number: usize) -> (r: Result<Block, IntegrityError>)
        ensures
            r is Ok <==> block_patterns_compile(),
            r matches Ok(b) ==> b@ == block_of(text@, line_number),
    {
        let patterns = BlockPatterns::new()?;
        Ok(Self::with_patterns(text, line_number, &patterns))
    }

    /// The block made of `text` starting at `line_number`.
    pub fn with_patterns(text: String, line_number: usize, patterns: &BlockPatterns) -> (r: Block)
        requires
            patterns.wf(),
        ensures
            r@ == block_of(text@, line_number),
    {
        let kind = Self::detect_kind(&text, patterns);
        let sentences = Self::split_sentences(&text, patterns);
        Self { kind, text, line_number, sentences }
    }

    /// The kind of a block with text `text`.
    fn detect_kind(text: &String, patterns: &BlockPatterns) -> (r: BlockKind)
        requires
            patterns.wf(),
        ensures
            r == kind_of(text@),
    {
        let t = trim_chars(&chars_of(text.as_str()));
        let first = if t.len() > 0 {
            Some(t[0])
        } else {
            None
        };
        if first == Some('#') || (first == Some('【') && utf8_len_below(&t, 50)) {
            return BlockKind::Heading;
        }
        let star = ['*', ' '];
        assert(star@ =~= seq!['*', ' ']);
        if first == Some('-') || first == Some('・') || first == Some('•') || starts_with_chars(
            &t,
            &star,
        ) {
            return BlockKind::ListItem;
        }
        let ts = string_of(&t);
        if patterns.numbered_list.is_match(ts.as_str()) {
            return BlockKind::ListItem;
        }
        let note = ['注', ':'];
        assert(note@ =~= seq!['注', ':']);
        if first == Some('※') || first == Some('＊') || starts_with_chars(&t, &note) {
            return BlockKind::Note;
        }
        BlockKind::Paragraph
    }

    /// The sentences of `text`.
    fn split_sentences(text: &String, patterns: &BlockPatterns) -> (r: Vec<String>)
        requires
            patterns.wf(),
        ensures
            texts(r@) == sentences_of(text@),
    {
        let pieces = patterns.sentence_end.split(text.as_str());
        let mut r: Vec<String> = Vec::new();
        let mut i: usize = 0;
        while i < pieces.len()
            invariant
                i <= pieces@.len(),
                texts(pieces@) == regex_split(sentence_end_pattern(), text@),
                texts(r@) == kept_sentences(texts(pieces@).take(i as int)),
            decreases pieces@.len() - i,
        {
            let s = trim_chars(&chars_of(pieces[i].as_str()));
            assert(texts(pieces@).take(i + 1).drop_last() =~= texts(pieces@).take(i as int));
            assert(texts(pieces@).take(i + 1).last() == pieces@[i as int]@);
            if s.len() > 0 {
                let ghost before = texts(r@);
                r.push(string_of(&s));
                assert(texts(r@) =~= before.push(s@));
            }
            i = i + 1;
        }
        assert(texts(pieces@).take(pieces@.len() as int) =~= texts(pieces@));
        r
    }

    /// Whether `pattern` matches somewhere in the block's text.
    pub fn contains_pattern(&self, pattern: &Pattern) -> (r: bool)
        ensures
            r == (regex_find_all(pattern@, self.text@).len() > 0),
    {
        pattern.is_match(self.text.as_str())
    }

    /// The texts of all matches of `pattern` in the block's text.
    pub fn find_all_matches(&self, pattern: &Pattern) -> (r: Vec<String>)
        ensures
            texts(r@) == regex_find_all(pattern@, self.text@),
    {
        pattern.find_all(self.text.as_str())
    }
}

/// A block whose trimmed text begins with a bullet (`-`, `・`, `•`, or `*`
/// followed by a space) is a list item; one whose trimmed text begins with
/// `#` is a heading.
pub proof fn law_bullets_are_list_items(text: Seq<char>)
    ensures
        ({
            let t = trim(text);
            (t.len() > 0 && (t[0] == '-' || t[0] == '・' || t[0] == '•')) || (t.len() > 1 && t[0]
                == '*' && t[1] == ' ') ==> kind_of(text) == BlockKind::ListItem
        }),
        trim(text).len() > 0 && trim(text)[0] == '#' ==> kind_of(text) == BlockKind::Heading,
{
    let t = trim(text);
    if t.len() > 1 && t[0] == '*' && t[1] == ' ' {
        assert(t.take(2) =~= seq!['*', ' ']);
    }
}

} // verus!
