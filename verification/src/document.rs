//! A plain text split into blocks: blank lines separate blocks, and a line
//! that opens a heading, a list item or a note starts a new one.
use vstd::prelude::*;
use crate::block::{Block, BlockPatterns, BlockView, block_of, block_patterns_compile};
use crate::error::IntegrityError;
use crate::text::{chars_of, lines, push_char, split_lines, string_of, trim, trim_chars, views, starts_with, starts_with_chars};

verus! {

/// A parsed text.
#[derive(Debug, Clone)]
pub struct Document {
    /// The text as given.
    pub raw_text: String,
    /// Its blocks, in order.
    pub blocks: Vec<Block>,
}

/// Mathematical model of a `Document`.
pub struct DocumentView {
    pub raw_text: Seq<char>,
    pub blocks: Seq<BlockView>,
}

/// The models of a sequence of blocks.
pub open spec fn block_views(bs: Seq<Block>) -> Seq<BlockView> {
    bs.map_values(|b: Block| b@)
}

impl View for Document {
    type V = DocumentView;

    open spec fn view(&self) -> DocumentView {
        DocumentView { raw_text: self.raw_text@, blocks: block_views(self.blocks@) }
    }
}

/// A (trimmed, non-blank) line that opens a new block: it begins with `#`,
/// `【`, `-`, `・`, `•`, `* `, `※`, or a digit followed by `.` or `)`.
pub open spec fn opens_block(t: Seq<char>) -> bool {
    ||| t.len() > 0 && (t[0] == '#' || t[0] == '【' || t[0] == '-' || t[0] == '・' || t[0] == '•'
        || t[0] == '※')
    ||| starts_with(t, seq!['*', ' '])
    ||| t.len() > 1 && '0' <= t[0] && t[0] <= '9' && (t[1] == '.' || t[1] == ')')
}

/// What the splitter knows after some lines.
pub struct SplitState {
    pub blocks: Seq<BlockView>,
    /// The lines of the block being read, trimmed and joined with spaces.
    pub current: Seq<char>,
    /// The line the block being read starts at.
    pub start: usize,
}

/// The block being read, ended (when there is one).
pub open spec fn end_block(st: SplitState) -> SplitState {
    if st.current.len() == 0 {
        st
    } else {
        SplitState {
            blocks: st.blocks.push(block_of(trim(st.current), st.start)),
            current: Seq::empty(),
            start: st.start,
        }
    }
}

/// The state after line number `idx`.
pub open spec fn split_step(st: SplitState, line: Seq<char>, idx: usize) -> SplitState {
    let t = trim(line);
    if t.len() == 0 {
        end_block(st)
    } else {
        let s1 = if opens_block(t) && st.current.len() > 0 {
            SplitState { start: idx, ..end_block(st) }
        } else {
            st
        };
        let s2 = if s1.current.len() == 0 {
            SplitState { start: idx, ..s1 }
        } else {
            s1
        };
        let joined = if s2.current.len() > 0 {
            s2.current.push(' ')
        } else {
            s2.current
        };
        SplitState { current: joined + t, ..s2 }
    }
}

/// The state after the first `n` lines.
pub open spec fn split_run(ls: Seq<Seq<char>>, n: nat) -> SplitState
    decreases n,
{
    if n == 0 {
        SplitState { blocks: Seq::empty(), current: Seq::empty(), start: 0 }
    } else {
        split_step(split_run(ls, (n - 1) as nat), ls[n - 1], (n - 1) as usize)
    }
}

/// The blocks of `input`.
pub open spec fn blocks_of(input: Seq<char>) -> Seq<BlockView> {
    let ls = lines(input);
    end_block(split_run(ls, ls.len())).blocks
}

/// A line that carries on the block above it: it is non-blank and does not
/// open a block of its own.
pub open spec fn carries_on(line: Seq<char>) -> bool {
    trim(line).len() > 0 && !opens_block(trim(line))
}

/// A block starting at line `start` of `ls` reaches line `line`: the start
/// line is non-blank, and every line after it, up to `line`, carries on.
pub open spec fn block_reaches(ls: Seq<Seq<char>>, start: int, line: int) -> bool {
    &&& 0 <= start <= line < ls.len()
    &&& trim(ls[start]).len() > 0
    &&& forall|j: int| start < j <= line ==> #[trigger] carries_on(ls[j])
}

/// The first block in `bs` that contains line `line` of the text `raw`.
pub open spec fn first_covering(raw: Seq<char>, bs: Seq<BlockView>, line: usize) -> Option<int>
    decreases bs.len(),
{
    if bs.len() == 0 {
        None
    } else if block_reaches(lines(raw), bs[0].line_number as int, line as int) {
        Some(0)
    } else {
        match first_covering(raw, bs.drop_first(), line) {
            Some(i) => Some(i + 1),
            None => None,
        }
    }
}

/// The texts of `bs`, one block to a line.
pub open spec fn joined_texts(bs: Seq<BlockView>) -> Seq<char>
    decreases bs.len(),
{
    if bs.len() == 0 {
        Seq::empty()
    } else if bs.len() == 1 {
        bs[0].text
    } else {
        joined_texts(bs.drop_last()) + seq!['\n'] + bs.last().text
    }
}

/// Whether the trimmed, non-blank line `t` opens a block.
fn line_opens_block(t: &Vec<char>) -> (r: bool)
    requires
        t@.len() > 0,
    ensures
        r == opens_block(t@),
{
    let star = ['*', ' '];
    assert(star@ =~= seq!['*', ' ']);
    let c0 = t[0];
    c0 == '#' || c0 == '【' || c0 == '-' || c0 == '・' || c0 == '•' || starts_with_chars(t, &star)
        || c0 == '※' || ('0' <= c0 && c0 <= '9' && t.len() > 1 && (t[1] == '.' || t[1] == ')'))
}

/// Ends the block being read.
fn end_current(blocks: &mut Vec<Block>, current: &mut Vec<char>, start: usize, patterns: &BlockPatterns)
    requires
        patterns.wf(),
    ensures
        ({
            let st = end_block(SplitState { blocks: block_views(old(blocks)@), current: old(current)@, start: start });
            &&& block_views(final(blocks)@) == st.blocks
            &&& final(current)@ == st.current
        }),
{
    if current.len() > 0 {
        let text = string_of(&trim_chars(current));
        let ghost before = block_views(blocks@);
        blocks.push(Block::with_patterns(text, start, patterns));
        assert(block_views(blocks@) =~= before.push(block_of(trim(old(current)@), start)));
        *current = Vec::new();
    }
}

impl Document {
    /// Parses `input`; fails only when a block-reading pattern does not compile.
    pub fn parse(input: &str) -> (r: Result<Self, IntegrityError>)
        ensures
            r is Ok <==> block_patterns_compile(),
            r matches Ok(d) ==> d@.raw_text == input@ && d@.blocks == blocks_of(input@),
            r matches Ok(d) ==> lines_increase(d@.blocks) && texts_trimmed(d@.blocks),
    {
        let patterns = BlockPatterns::new()?;
        let blocks = Self::split_into_blocks(input, &patterns);
        Ok(Self { raw_text: crate::text::owned(input), blocks })
    }

    /// Splits `input` into blocks.
    fn split_into_blocks(input: &str, patterns: &BlockPatterns) -> (r: Vec<Block>)
        requires
            patterns.wf(),
        ensures
            block_views(r@) == blocks_of(input@),
            lines_increase(block_views(r@)),
            texts_trimmed(block_views(r@)),
    {
        let chars = chars_of(input);
        let ls = split_lines(&chars);
        let line_count = ls.len();
        proof {
            assert(lines(input@).len() == line_count);
            law_blocks_in_line_order(input@);
        }
        let mut blocks: Vec<Block> = Vec::new();
        let mut current: Vec<char> = Vec::new();
        let mut block_start_line: usize = 0;
        let mut line_idx: usize = 0;
        assert(block_views(blocks@) =~= Seq::<BlockView>::empty());
        while line_idx < ls.len()
            invariant
                patterns.wf(),
                line_idx <= ls@.len(),
                views(ls@) == lines(input@),
                ({
                    let st = split_run(views(ls@), line_idx as nat);
                    &&& block_views(blocks@) == st.blocks
                    &&& current@ == st.current
                    &&& block_start_line == st.start
                }),
            decreases ls@.len() - line_idx,
        {
            let ghost st0 = split_run(views(ls@), line_idx as nat);
            assert(views(ls@)[line_idx as int] == ls@[line_idx as int]@);
            let trimmed = trim_chars(&ls[line_idx]);
            if trimmed.len() == 0 {
                end_current(&mut blocks, &mut current, block_start_line, patterns);
            } else {
                let is_new_block_start = line_opens_block(&trimmed);
                if is_new_block_start && current.len() > 0 {
                    end_current(&mut blocks, &mut current, block_start_line, patterns);
                    block_start_line = line_idx;
                }
                if current.len() == 0 {
                    block_start_line = line_idx;
                }
                if current.len() > 0 {
                    current.push(' ');
                }
                let mut k: usize = 0;
                let ghost mid = current@;
                while k < trimmed.len()
                    invariant
                        k <= trimmed@.len(),
                        current@ == mid + trimmed@.take(k as int),
                    decreases trimmed@.len() - k,
                {
                    current.push(trimmed[k]);
                    assert(trimmed@.take(k + 1) =~= trimmed@.take(k as int).push(trimmed@[k as int]));
                    k = k + 1;
                }
                assert(trimmed@.take(trimmed@.len() as int) =~= trimmed@);
            }
            line_idx = line_idx + 1;
        }
        end_current(&mut blocks, &mut current, block_start_line, patterns);
        blocks
    }

    /// The texts of all blocks combined, one block to a line.
    pub fn full_text(&self) -> (r: String)
        ensures
            r@ == joined_texts(self@.blocks),
    {
        let ghost bs = self@.blocks;
        let mut out = String::new();
        let mut i: usize = 0;
        assert(bs.take(0) =~= Seq::<BlockView>::empty());
        while i < self.blocks.len()
            invariant
                i <= bs.len(),
                bs == self@.blocks,
                out@ == joined_texts(bs.take(i as int)),
            decreases bs.len() - i,
        {
            let b = &self.blocks[i];
            assert(bs[i as int] == b@);
            assert(bs.take(i + 1).drop_last() =~= bs.take(i as int));
            if i > 0 {
                push_char(&mut out, '\n');
            }
            out.append(b.text.as_str());
            i = i + 1;
        }
        assert(bs.take(bs.len() as int) =~= bs);
        out
    }

    /// The number of blocks.
    pub fn block_count(&self) -> (r: usize)
        ensures
            r == self.blocks@.len(),
    {
        self.blocks.len()
    }

    /// The first block that contains line `line` of the text: the block
    /// starts at or before it, and every line from its start to `line` is
    /// part of it (non-blank, and not opening a block of its own).
    pub fn block_at_line(&self, line: usize) -> (r: Option<&Block>)
        ensures
            match first_covering(self@.raw_text, self@.blocks, line) {
                Some(i) => r matches Some(b) && b@ == self@.blocks[i],
                None => r is None,
            },
    {
        let ls = split_lines(&chars_of(self.raw_text.as_str()));
        let ghost ls_v = lines(self@.raw_text);
        // Per line: whether it is non-blank, and whether it carries on a block.
        let mut nonblank: Vec<bool> = Vec::new();
        let mut carries: Vec<bool> = Vec::new();
        let mut k: usize = 0;
        while k < ls.len()
            invariant
                views(ls@) == ls_v,
                k <= ls@.len(),
                nonblank@.len() == k,
                carries@.len() == k,
                forall|j: int| 0 <= j < k ==> nonblank@[j] == (trim(#[trigger] ls_v[j]).len() > 0),
                forall|j: int| 0 <= j < k ==> carries@[j] == carries_on(#[trigger] ls_v[j]),
            decreases ls@.len() - k,
        {
            assert(ls_v[k as int] == ls@[k as int]@);
            let t = trim_chars(&ls[k]);
            if t.len() > 0 {
                nonblank.push(true);
                let opens = line_opens_block(&t);
                carries.push(!opens);
            } else {
                nonblank.push(false);
                carries.push(false);
            }
            k = k + 1;
        }
        let mut i: usize = 0;
        let ghost bs = self@.blocks;
        assert(bs.skip(0) =~= bs);
        while i < self.blocks.len()
            invariant
                i <= bs.len(),
                bs == self@.blocks,
                ls_v == lines(self@.raw_text),
                views(ls@) == ls_v,
                nonblank@.len() == ls_v.len(),
                carries@.len() == ls_v.len(),
                forall|j: int| 0 <= j < ls_v.len() ==> nonblank@[j] == (trim(#[trigger] ls_v[j]).len() > 0),
                forall|j: int| 0 <= j < ls_v.len() ==> carries@[j] == carries_on(#[trigger] ls_v[j]),
                first_covering(self@.raw_text, bs, line) == match first_covering(
                    self@.raw_text,
                    bs.skip(i as int),
                    line,
                ) {
                    Some(j) => Some(j + i),
                    None => None,
                },
            decreases bs.len() - i,
        {
            let b = &self.blocks[i];
            assert(bs.skip(i as int)[0] == b@);
            assert(bs.skip(i as int).drop_first() =~= bs.skip(i + 1));
            let start = b.line_number;
            let ghost reach = block_reaches(ls_v, start as int, line as int);
            assert(first_covering(self@.raw_text, bs.skip(i as int), line) == if reach {
                Some(0int)
            } else {
                match first_covering(self@.raw_text, bs.skip(i + 1), line) {
                    Some(j) => Some(j + 1),
                    None => None,
                }
            });
            if start <= line && line < nonblank.len() {
                assert(nonblank@[start as int] == (trim(ls_v[start as int]).len() > 0));
            }
            if start <= line && line < nonblank.len() && nonblank[start] {
                let mut j: usize = start;
                let mut reaches = true;
                while j < line
                    invariant
                        start <= j <= line,
                        line < carries@.len(),
                        carries@.len() == ls_v.len(),
                        forall|m: int| 0 <= m < ls_v.len() ==> carries@[m] == carries_on(#[trigger] ls_v[m]),
                        reaches == forall|m: int| start < m <= j ==> #[trigger] carries_on(ls_v[m]),
                    decreases line - j,
                {
                    let c = carries[j + 1];
                    assert(c == carries_on(ls_v[j + 1]));
                    if !c {
                        reaches = false;
                    }
                    j = j + 1;
                }
                if reaches {
                    assert(block_reaches(ls_v, start as int, line as int));
                    return Some(b);
                }
                assert(!block_reaches(ls_v, start as int, line as int));
            }
            i = i + 1;
        }
        None
    }
}

/// Parses a text into blocks (see `Document::parse`).
pub fn parse(input: &str) -> (r: Result<Document, IntegrityError>)
    ensures
        r is Ok <==> block_patterns_compile(),
        r matches Ok(d) ==> d@.raw_text == input@ && d@.blocks == blocks_of(input@),
        r matches Ok(d) ==> lines_increase(d@.blocks) && texts_trimmed(d@.blocks),
{
    Document::parse(input)
}

} // verus!

verus! {

/// The blocks start on increasing lines.
pub open spec fn lines_increase(bs: Seq<BlockView>) -> bool {
    forall|i: int, j: int| 0 <= i < j < bs.len() ==> bs[i].line_number < bs[j].line_number
}

/// Every block's text is non-blank and trimmed: it begins and ends with a
/// non-whitespace character.
pub open spec fn texts_trimmed(bs: Seq<BlockView>) -> bool {
    forall|i: int|
        0 <= i < bs.len() ==> (#[trigger] bs[i]).text.len() > 0 && !crate::text::is_ws(bs[i].text[0])
            && !crate::text::is_ws(bs[i].text.last())
}

/// What holds of the splitter's state after `n` lines.
spec fn split_inv(st: SplitState, n: int) -> bool {
    &&& lines_increase(st.blocks)
    &&& texts_trimmed(st.blocks)
    &&& forall|i: int| 0 <= i < st.blocks.len() ==> (#[trigger] st.blocks[i]).line_number < n
    &&& st.current.len() > 0 ==> {
        &&& !crate::text::is_ws(st.current[0])
        &&& st.start < n
        &&& forall|i: int| 0 <= i < st.blocks.len() ==> (#[trigger] st.blocks[i]).line_number < st.start
    }
}

proof fn lemma_end_block_inv(st: SplitState, n: int)
    requires
        split_inv(st, n),
    ensures
        split_inv(end_block(st), n),
        end_block(st).current.len() == 0,
        forall|i: int| 0 <= i < end_block(st).blocks.len() ==> (#[trigger] end_block(st).blocks[i]).line_number < n,
        st.current.len() > 0 ==> end_block(st).blocks.len() > 0 && end_block(st).blocks.last().line_number == st.start,
{
    if st.current.len() > 0 {
        crate::text::lemma_trim_nonblank(st.current);
        crate::text::lemma_trim_edges(st.current);
        let nb = end_block(st).blocks;
        assert(nb.last() == block_of(trim(st.current), st.start));
        assert forall|i: int, j: int| 0 <= i < j < nb.len() implies nb[i].line_number < nb[j].line_number by {
            if j < nb.len() - 1 {
                assert(nb[i] == st.blocks[i] && nb[j] == st.blocks[j]);
            } else {
                assert(nb[i] == st.blocks[i]);
            }
        }
        assert forall|i: int| 0 <= i < nb.len() implies (#[trigger] nb[i]).text.len() > 0 && !crate::text::is_ws(nb[i].text[0])
            && !crate::text::is_ws(nb[i].text.last()) by {
            if i < nb.len() - 1 {
                assert(nb[i] == st.blocks[i]);
            }
        }
        assert forall|i: int| 0 <= i < nb.len() implies (#[trigger] nb[i]).line_number < n by {
            if i < nb.len() - 1 {
                assert(nb[i] == st.blocks[i]);
            }
        }
    }
}

proof fn lemma_split_step_inv(st: SplitState, line: Seq<char>, idx: usize)
    requires
        split_inv(st, idx as int),
    ensures
        split_inv(split_step(st, line, idx), idx + 1),
{
    let t = trim(line);
    crate::text::lemma_trim_edges(line);
    lemma_end_block_inv(st, idx as int);
    if t.len() > 0 {
        let s1 = if opens_block(t) && st.current.len() > 0 {
            SplitState { start: idx, ..end_block(st) }
        } else {
            st
        };
        let s2 = if s1.current.len() == 0 {
            SplitState { start: idx, ..s1 }
        } else {
            s1
        };
        let joined = if s2.current.len() > 0 {
            s2.current.push(' ')
        } else {
            s2.current
        };
        let r = split_step(st, line, idx);
        assert(r == SplitState { current: joined + t, ..s2 });
        assert(r.current[0] == if s2.current.len() > 0 { s2.current[0] } else { t[0] });
    }
}

proof fn lemma_split_run_inv(ls: Seq<Seq<char>>, n: nat)
    requires
        n <= ls.len(),
        ls.len() <= usize::MAX,
    ensures
        split_inv(split_run(ls, n), n as int),
    decreases n,
{
    if n > 0 {
        lemma_split_run_inv(ls, (n - 1) as nat);
        lemma_split_step_inv(split_run(ls, (n - 1) as nat), ls[n - 1], (n - 1) as usize);
    }
}

/// The blocks of a text start on strictly increasing lines, and each
/// block's text is non-blank and trimmed.
pub proof fn law_blocks_in_line_order(input: Seq<char>)
    requires
        lines(input).len() <= usize::MAX,
    ensures
        lines_increase(blocks_of(input)),
        texts_trimmed(blocks_of(input)),
{
    let ls = lines(input);
    lemma_split_run_inv(ls, ls.len());
    lemma_end_block_inv(split_run(ls, ls.len()), ls.len() as int);
}

/// `ts` joined with single spaces.
pub open spec fn spaced(ts: Seq<Seq<char>>) -> Seq<char>
    decreases ts.len(),
{
    if ts.len() == 0 {
        Seq::empty()
    } else if ts.len() == 1 {
        ts[0]
    } else {
        spaced(ts.drop_last()) + seq![' '] + ts.last()
    }
}

/// The non-blank lines of `ls`, trimmed.
pub open spec fn content_lines(ls: Seq<Seq<char>>) -> Seq<Seq<char>>
    decreases ls.len(),
{
    if ls.len() == 0 {
        Seq::empty()
    } else if trim(ls.last()).len() > 0 {
        content_lines(ls.drop_last()).push(trim(ls.last()))
    } else {
        content_lines(ls.drop_last())
    }
}

/// Line `l` of `ls` starts a block: it is non-blank, and the line before it
/// is blank or missing, or the line opens a block of its own.
pub open spec fn starts_block(ls: Seq<Seq<char>>, l: int) -> bool {
    &&& trim(ls[l]).len() > 0
    &&& (l == 0 || trim(ls[l - 1]).len() == 0 || opens_block(trim(ls[l])))
}

/// The lines of `ls` that start a block, in order.
pub open spec fn block_starts(ls: Seq<Seq<char>>) -> Seq<int>
    decreases ls.len(),
{
    if ls.len() == 0 {
        Seq::empty()
    } else if starts_block(ls, ls.len() - 1) {
        block_starts(ls.drop_last()).push(ls.len() - 1)
    } else {
        block_starts(ls.drop_last())
    }
}

/// The texts of `bs`.
pub open spec fn texts_of(bs: Seq<BlockView>) -> Seq<Seq<char>> {
    bs.map_values(|b: BlockView| b.text)
}

/// The lines `bs` start at.
pub open spec fn starts_of(bs: Seq<BlockView>) -> Seq<int> {
    bs.map_values(|b: BlockView| b.line_number as int)
}

/// The texts of the splitter's blocks, the block being read included.
spec fn open_texts(st: SplitState) -> Seq<Seq<char>> {
    texts_of(st.blocks) + if st.current.len() > 0 {
        seq![st.current]
    } else {
        Seq::empty()
    }
}

/// The start lines of the splitter's blocks, the block being read included.
spec fn open_starts(st: SplitState) -> Seq<int> {
    starts_of(st.blocks) + if st.current.len() > 0 {
        seq![st.start as int]
    } else {
        Seq::empty()
    }
}

/// How the splitter's state after `n` lines lays out those lines.
spec fn layout_inv(st: SplitState, ls: Seq<Seq<char>>, n: nat) -> bool {
    &&& spaced(open_texts(st)) == spaced(content_lines(ls.take(n as int)))
    &&& (open_texts(st).len() == 0 <==> content_lines(ls.take(n as int)).len() == 0)
    &&& open_starts(st) == block_starts(ls.take(n as int))
    &&& (st.current.len() > 0 <==> (n > 0 && trim(ls[n - 1]).len() > 0))
    &&& st.current.len() > 0 ==> !crate::text::is_ws(st.current[0]) && !crate::text::is_ws(
        st.current.last(),
    )
}

proof fn lemma_spaced_push(a: Seq<Seq<char>>, x: Seq<char>)
    ensures
        spaced(a.push(x)) == if a.len() == 0 {
            x
        } else {
            spaced(a) + seq![' '] + x
        },
{
    assert(a.push(x).drop_last() =~= a);
}

proof fn lemma_spaced_extend(b: Seq<Seq<char>>, x: Seq<char>, t: Seq<char>)
    ensures
        spaced(b.push(x.push(' ') + t)) == spaced(b.push(x)) + seq![' '] + t,
{
    lemma_spaced_push(b, x.push(' ') + t);
    lemma_spaced_push(b, x);
    if b.len() == 0 {
        assert(x.push(' ') + t =~= x + seq![' '] + t);
    } else {
        assert(spaced(b) + seq![' '] + (x.push(' ') + t) =~= spaced(b) + seq![' '] + x + seq![' '] + t);
    }
}

proof fn lemma_end_block_layout(st: SplitState)
    requires
        st.current.len() > 0 ==> !crate::text::is_ws(st.current[0]) && !crate::text::is_ws(
            st.current.last(),
        ),
    ensures
        open_texts(end_block(st)) == open_texts(st),
        open_starts(end_block(st)) == open_starts(st),
        end_block(st).current.len() == 0,
{
    if st.current.len() > 0 {
        crate::text::lemma_trim_keeps(st.current);
        let e = end_block(st);
        assert(texts_of(e.blocks) =~= texts_of(st.blocks).push(st.current));
        assert(starts_of(e.blocks) =~= starts_of(st.blocks).push(st.start as int));
        assert(open_texts(e) =~= open_texts(st));
        assert(open_starts(e) =~= open_starts(st));
    } else {
        assert(open_texts(st) =~= texts_of(st.blocks));
        assert(open_starts(st) =~= starts_of(st.blocks));
    }
}

proof fn lemma_layout_step(ls: Seq<Seq<char>>, n: nat, st: SplitState)
    requires
        n < ls.len(),
        ls.len() <= usize::MAX,
        layout_inv(st, ls, n),
    ensures
        layout_inv(split_step(st, ls[n as int], n as usize), ls, n + 1),
{
    let line = ls[n as int];
    let t = trim(line);
    crate::text::lemma_trim_edges(line);
    let tk = ls.take(n as int);
    let tk1 = ls.take(n + 1 as int);
    assert(tk1.drop_last() =~= tk);
    assert(tk1.last() == line);
    if n > 0 {
        assert(tk1[n - 1] == ls[n - 1]);
    }
    assert(starts_block(tk1, n as int) == starts_block(ls, n as int));
    let r = split_step(st, line, n as usize);
    lemma_end_block_layout(st);
    if t.len() == 0 {
        assert(content_lines(tk1) == content_lines(tk));
        assert(block_starts(tk1) == block_starts(tk));
    } else {
        let c = content_lines(tk);
        assert(content_lines(tk1) == c.push(t));
        lemma_spaced_push(c, t);
        if opens_block(t) && st.current.len() > 0 {
            let e = end_block(st);
            assert(r.blocks == e.blocks && r.current == t && r.start == n);
            assert(open_texts(r) =~= open_texts(e).push(t));
            assert(open_starts(r) =~= open_starts(e).push(n as int));
            lemma_spaced_push(open_texts(e), t);
            assert(block_starts(tk1) == block_starts(tk).push(n as int));
        } else if st.current.len() == 0 {
            assert(r.blocks == st.blocks && r.current =~= t && r.start == n);
            assert(open_texts(r) =~= open_texts(st).push(t));
            assert(open_starts(r) =~= open_starts(st).push(n as int));
            lemma_spaced_push(open_texts(st), t);
            assert(block_starts(tk1) == block_starts(tk).push(n as int));
        } else {
            assert(r.blocks == st.blocks && r.current == st.current.push(' ') + t && r.start == st.start);
            lemma_spaced_extend(texts_of(st.blocks), st.current, t);
            assert(open_texts(st) =~= texts_of(st.blocks).push(st.current));
            assert(open_texts(r) =~= texts_of(st.blocks).push(st.current.push(' ') + t));
            assert(open_starts(r) =~= open_starts(st));
            assert(block_starts(tk1) == block_starts(tk));
            assert(r.current.last() == t.last());
            assert(r.current[0] == st.current[0]);
        }
    }
}

proof fn lemma_layout_run(ls: Seq<Seq<char>>, n: nat)
    requires
        n <= ls.len(),
        ls.len() <= usize::MAX,
    ensures
        layout_inv(split_run(ls, n), ls, n),
    decreases n,
{
    if n == 0 {
        let st = split_run(ls, 0);
        assert(ls.take(0) =~= Seq::<Seq<char>>::empty());
        assert(open_texts(st) =~= Seq::<Seq<char>>::empty());
        assert(open_starts(st) =~= Seq::<int>::empty());
    } else {
        lemma_layout_run(ls, (n - 1) as nat);
        lemma_layout_step(ls, (n - 1) as nat, split_run(ls, (n - 1) as nat));
    }
}

/// The blocks of a text hold its non-blank lines, trimmed, in order and
/// each exactly once: joined with spaces, the block texts are the non-blank
/// trimmed lines joined with spaces. And the blocks start exactly at the
/// lines that start a block: a non-blank line after a blank line (or at the
/// top), or one that opens a block of its own.
pub proof fn law_blocks_cover_the_lines(input: Seq<char>)
    requires
        lines(input).len() <= usize::MAX,
    ensures
        spaced(texts_of(blocks_of(input))) == spaced(content_lines(lines(input))),
        starts_of(blocks_of(input)) == block_starts(lines(input)),
{
    let ls = lines(input);
    lemma_layout_run(ls, ls.len());
    let st = split_run(ls, ls.len());
    lemma_end_block_layout(st);
    let e = end_block(st);
    assert(ls.take(ls.len() as int) =~= ls);
    assert(open_texts(e) =~= texts_of(e.blocks));
    assert(open_starts(e) =~= starts_of(e.blocks));
}

proof fn lemma_covering_is_nonblank(raw: Seq<char>, bs: Seq<BlockView>, line: usize)
    requires
        first_covering(raw, bs, line) is Some,
    ensures
        0 <= line < lines(raw).len(),
        trim(lines(raw)[line as int]).len() > 0,
    decreases bs.len(),
{
    let ls = lines(raw);
    if block_reaches(ls, bs[0].line_number as int, line as int) {
        if line > bs[0].line_number {
            assert(carries_on(ls[line as int]));
        }
    } else {
        lemma_covering_is_nonblank(raw, bs.drop_first(), line);
    }
}

proof fn lemma_some_block_reaches(raw: Seq<char>, bs: Seq<BlockView>, line: usize, j: int)
    requires
        0 <= j < bs.len(),
        block_reaches(lines(raw), bs[j].line_number as int, line as int),
    ensures
        first_covering(raw, bs, line) is Some,
    decreases bs.len(),
{
    if j > 0 && !block_reaches(lines(raw), bs[0].line_number as int, line as int) {
        assert(bs.drop_first()[j - 1] == bs[j]);
        lemma_some_block_reaches(raw, bs.drop_first(), line, j - 1);
    }
}

proof fn lemma_reached_from_a_start(ls: Seq<Seq<char>>, l: int) -> (s: int)
    requires
        0 <= l < ls.len(),
        trim(ls[l]).len() > 0,
    ensures
        0 <= s <= l,
        starts_block(ls, s),
        block_reaches(ls, s, l),
    decreases l,
{
    if starts_block(ls, l) {
        l
    } else {
        let s = lemma_reached_from_a_start(ls, l - 1);
        assert(carries_on(ls[l]));
        assert forall|j: int| s < j <= l implies #[trigger] carries_on(ls[j]) by {
            if j < l {
                assert(block_reaches(ls, s, l - 1));
            }
        }
        s
    }
}

proof fn lemma_start_listed(ls: Seq<Seq<char>>, s: int)
    requires
        0 <= s < ls.len(),
        starts_block(ls, s),
    ensures
        block_starts(ls).contains(s),
    decreases ls.len(),
{
    let n = ls.len() - 1;
    if s == n {
        assert(block_starts(ls).last() == s);
    } else {
        let d = ls.drop_last();
        assert(d[s] == ls[s]);
        if s > 0 {
            assert(d[s - 1] == ls[s - 1]);
        }
        lemma_start_listed(d, s);
        let k = choose|k: int| 0 <= k < block_starts(d).len() && block_starts(d)[k] == s;
        if starts_block(ls, n) {
            assert(block_starts(ls)[k] == s);
        }
    }
}

/// Every line of a text lies in a block exactly when it is non-blank: for
/// a non-blank line, `block_at_line` finds a block, and for a blank line it
/// finds none.
pub proof fn law_every_line_in_a_block(input: Seq<char>, line: usize)
    requires
        lines(input).len() <= usize::MAX,
        line < lines(input).len(),
    ensures
        first_covering(input, blocks_of(input), line) is Some <==> trim(lines(input)[line as int]).len() > 0,
{
    let ls = lines(input);
    let bs = blocks_of(input);
    if first_covering(input, bs, line) is Some {
        lemma_covering_is_nonblank(input, bs, line);
    }
    if trim(ls[line as int]).len() > 0 {
        let s = lemma_reached_from_a_start(ls, line as int);
        lemma_start_listed(ls, s);
        law_blocks_cover_the_lines(input);
        let k = choose|k: int| 0 <= k < block_starts(ls).len() && block_starts(ls)[k] == s;
        assert(starts_of(bs)[k] == s);
        assert(bs[k].line_number == s);
        lemma_some_block_reaches(input, bs, line, k);
    }
}

/// A non-blank line whose trimmed text begins with `#`, `【`, `-`, `・`, `•`,
/// `※`, `*` followed by a space, or a digit followed by `.` or `)` starts a
/// block of its own: some block of the text starts at that line.
pub proof fn law_marked_lines_start_blocks(input: Seq<char>, line: int)
    requires
        lines(input).len() <= usize::MAX,
        0 <= line < lines(input).len(),
        ({
            let t = trim(lines(input)[line]);
            ||| t.len() > 0 && (t[0] == '#' || t[0] == '【' || t[0] == '-' || t[0] == '・' || t[0]
                == '•' || t[0] == '※')
            ||| t.len() > 1 && t[0] == '*' && t[1] == ' '
            ||| t.len() > 1 && '0' <= t[0] && t[0] <= '9' && (t[1] == '.' || t[1] == ')')
        }),
    ensures
        exists|k: int| 0 <= k < blocks_of(input).len() && (#[trigger] blocks_of(input)[k]).line_number
            == line,
{
    let ls = lines(input);
    let t = trim(ls[line]);
    if t.len() > 1 && t[0] == '*' && t[1] == ' ' {
        assert(t.take(2) =~= seq!['*', ' ']);
    }
    assert(opens_block(t));
    assert(starts_block(ls, line));
    lemma_start_listed(ls, line);
    law_blocks_cover_the_lines(input);
    let bs = blocks_of(input);
    let k = choose|k: int| 0 <= k < block_starts(ls).len() && block_starts(ls)[k] == line;
    assert(starts_of(bs)[k] == line);
    assert(bs[k].line_number == line);
}

} // verus!
