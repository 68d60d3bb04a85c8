//! A line-based Markdown reader: headings, list items, block quotes, fenced
//! code blocks and paragraphs, with inline markup removed from block text.
use vstd::prelude::*;
use crate::model::{Block, BlockKind, BlockView, Document, DocumentView, KindView};
use crate::analysis::list_id_of;
use crate::text::{
    copy_range, find_char, find_char_from, lemma_find_char, lines, split_lines, starts_with,
    string_of, trim, trim_chars, trim_end, trim_end_chars, trim_start, trim_start_chars, views,
    chars_of, starts_with_chars,
};

verus! {

// ---------------------------------------------------------------------------
// Inline markup
// ---------------------------------------------------------------------------

/// The characters of `s` before the first `end`.
pub open spec fn collect_until_spec(s: Seq<char>, end: char) -> Seq<char> {
    s.take(find_char(s, end))
}

/// The characters of `s` after the first `end`, or nothing when `end` does
/// not occur.
pub open spec fn after_delim(s: Seq<char>, end: char) -> Seq<char> {
    if find_char(s, end) < s.len() {
        s.skip(find_char(s, end) + 1)
    } else {
        Seq::empty()
    }
}

/// `s` with a leading link target `(...)` removed (through the first `)`,
/// or to the end when there is none).
pub open spec fn skip_link_target_spec(s: Seq<char>) -> Seq<char> {
    if s.len() > 0 && s[0] == '(' {
        after_delim(s.drop_first(), ')')
    } else {
        s
    }
}

/// Removing through a delimiter leaves a shorter text.
pub proof fn lemma_after_delim_len(s: Seq<char>, end: char)
    ensures
        after_delim(s, end).len() <= s.len(),
        collect_until_spec(s, end).len() <= s.len(),
        skip_link_target_spec(s).len() <= s.len(),
{
    lemma_find_char(s, end);
    if s.len() > 0 {
        lemma_find_char(s.drop_first(), ')');
    }
}

/// The text of `s` with inline Markdown removed: `*`, `_` and `` ` `` are
/// dropped, an image `![alt](target)` becomes `alt`, a link
/// `[label](target)` becomes `label`.
pub open spec fn strip_inline(s: Seq<char>) -> Seq<char>
    decreases s.len(),
{
    if s.len() == 0 {
        Seq::empty()
    } else {
        let c = s[0];
        let rest = s.drop_first();
        if c == '*' || c == '_' || c == '`' {
            strip_inline(rest)
        } else if c == '!' && rest.len() > 0 && rest[0] == '[' {
            let inner = rest.drop_first();
            proof {
                lemma_after_delim_len(inner, ']');
                lemma_after_delim_len(after_delim(inner, ']'), ')');
            }
            collect_until_spec(inner, ']') + strip_inline(
                skip_link_target_spec(after_delim(inner, ']')),
            )
        } else if c == '[' {
            proof {
                lemma_after_delim_len(rest, ']');
                lemma_after_delim_len(after_delim(rest, ']'), ')');
            }
            collect_until_spec(rest, ']') + strip_inline(
                skip_link_target_spec(after_delim(rest, ']')),
            )
        } else {
            seq![c] + strip_inline(rest)
        }
    }
}

/// Reads `s[p..]` up to the first `end`; returns what was read and the
/// position after `end` (or the end of `s`).
fn collect_until(s: &[char], p: usize, end: char) -> (r: (Vec<char>, usize))
    requires
        p <= s@.len(),
    ensures
        p <= r.1 <= s@.len(),
        r.0@ == collect_until_spec(s@.skip(p as int), end),
        s@.skip(r.1 as int) == after_delim(s@.skip(p as int), end),
{
    let k = find_char_from(s, p, end);
    let ghost rest = s@.skip(p as int);
    assert(rest =~= s@.subrange(p as int, s@.len() as int));
    proof {
        lemma_find_char(rest, end);
    }
    let label = copy_range(s, p, k);
    assert(label@ =~= rest.take(k - p));
    if k < s.len() {
        assert(s@.skip(k + 1) =~= rest.skip(k - p + 1));
        (label, k + 1)
    } else {
        assert(s@.skip(k as int) =~= Seq::<char>::empty());
        (label, k)
    }
}

/// Skips a link target `(...)` starting at `p`, if there is one.
fn skip_link_target(s: &[char], p: usize) -> (q: usize)
    requires
        p <= s@.len(),
    ensures
        p <= q <= s@.len(),
        s@.skip(q as int) == skip_link_target_spec(s@.skip(p as int)),
{
    if p < s.len() && s[p] == '(' {
        assert(s@.skip(p as int).drop_first() =~= s@.skip(p + 1));
        let (_, q) = collect_until(s, p + 1, ')');
        q
    } else {
        at_no_link_target(s, p)
    }
}

/// The position itself (no link target to skip).
fn at_no_link_target(s: &[char], p: usize) -> (q: usize)
    requires
        p <= s@.len(),
        !(p < s@.len() && s@[p as int] == '('),
    ensures
        q == p,
        s@.skip(q as int) == skip_link_target_spec(s@.skip(p as int)),
{
    p
}

/// `strip_inline` as a new vector.
pub fn strip_inline_md(raw: &[char]) -> (r: Vec<char>)
    ensures
        r@ == strip_inline(raw@),
{
    let mut out: Vec<char> = Vec::new();
    let mut p: usize = 0;
    assert(raw@.skip(0) =~= raw@);
    while p < raw.len()
        invariant
            p <= raw@.len(),
            strip_inline(raw@) == out@ + strip_inline(raw@.skip(p as int)),
        decreases raw@.len() - p,
    {
        let ghost cur = raw@.skip(p as int);
        let c = raw[p];
        assert(cur[0] == c);
        assert(cur.drop_first() =~= raw@.skip(p + 1));
        if c == '*' || c == '_' || c == '`' {
            p = p + 1;
        } else if c == '!' && p + 1 < raw.len() && raw[p + 1] == '[' {
            assert(cur.drop_first().drop_first() =~= raw@.skip(p + 2));
            let (alt, q) = collect_until(raw, p + 2, ']');
            let q2 = skip_link_target(raw, q);
            let ghost before = out@;
            let mut i: usize = 0;
            while i < alt.len()
                invariant
                    i <= alt@.len(),
                    out@ == before + alt@.take(i as int),
                decreases alt@.len() - i,
            {
                out.push(alt[i]);
                assert(alt@.take(i + 1) =~= alt@.take(i as int).push(alt@[i as int]));
                i = i + 1;
            }
            assert(alt@.take(alt@.len() as int) =~= alt@);
            assert(strip_inline(cur) == alt@ + strip_inline(raw@.skip(q2 as int)));
            assert(strip_inline(raw@) =~= out@ + strip_inline(raw@.skip(q2 as int)));
            p = q2;
        } else if c == '[' {
            let (label, q) = collect_until(raw, p + 1, ']');
            let q2 = skip_link_target(raw, q);
            let ghost before = out@;
            let mut i: usize = 0;
            while i < label.len()
                invariant
                    i <= label@.len(),
                    out@ == before + label@.take(i as int),
                decreases label@.len() - i,
            {
                out.push(label[i]);
                assert(label@.take(i + 1) =~= label@.take(i as int).push(label@[i as int]));
                i = i + 1;
            }
            assert(label@.take(label@.len() as int) =~= label@);
            assert(strip_inline(cur) == label@ + strip_inline(raw@.skip(q2 as int)));
            assert(strip_inline(raw@) =~= out@ + strip_inline(raw@.skip(q2 as int)));
            p = q2;
        } else {
            let ghost before = out@;
            out.push(c);
            assert(strip_inline(cur) == seq![c] + strip_inline(raw@.skip(p + 1)));
            assert(strip_inline(raw@) =~= out@ + strip_inline(raw@.skip(p + 1)));
            p = p + 1;
        }
    }
    assert(raw@.skip(p as int) =~= Seq::<char>::empty());
    assert(strip_inline(raw@) =~= out@);
    out
}


/// Whether `c` is not an inline mark (`*`, `_` or a backtick).
pub open spec fn no_mark(c: char) -> bool {
    c != '*' && c != '_' && c != '`'
}

/// `no_mark` as a function value.
pub open spec fn mark_free() -> spec_fn(char) -> bool {
    |c: char| no_mark(c)
}

/// Stripping a text without links or images (no `[`) removes exactly its
/// inline marks: every `*`, `_` and backtick goes, and every other
/// character stays, in order.
pub proof fn law_strip_removes_marks(s: Seq<char>)
    requires
        forall|i: int| 0 <= i < s.len() ==> s[i] != '[',
    ensures
        strip_inline(s) == s.filter(mark_free()),
        forall|i: int| 0 <= i < strip_inline(s).len() ==> no_mark(#[trigger] strip_inline(s)[i]),
    decreases s.len(),
{
    reveal_with_fuel(Seq::filter, 2);
    if s.len() > 0 {
        let rest = s.drop_first();
        law_strip_removes_marks(rest);
        let one = seq![s[0]];
        assert(one.drop_last() =~= Seq::<char>::empty());
        assert(s =~= one + rest);
        Seq::filter_distributes_over_add(one, rest, mark_free());
        if no_mark(s[0]) {
            assert(one.filter(mark_free()) =~= one);
            assert(s[0] != '!' || rest.len() == 0 || rest[0] != '[');
        } else {
            assert(one.filter(mark_free()) =~= Seq::<char>::empty());
        }
        assert(strip_inline(s) =~= s.filter(mark_free()));
    }
    assert forall|i: int| 0 <= i < strip_inline(s).len() implies no_mark(#[trigger] strip_inline(s)[i]) by {
        s.lemma_filter_pred(mark_free(), i);
    }
}

proof fn lemma_find_after(l: Seq<char>, c: char, rest: Seq<char>)
    requires
        forall|i: int| 0 <= i < l.len() ==> l[i] != c,
    ensures
        find_char(l + seq![c] + rest, c) == l.len(),
    decreases l.len(),
{
    if l.len() > 0 {
        assert((l + seq![c] + rest).drop_first() =~= l.drop_first() + seq![c] + rest);
        lemma_find_after(l.drop_first(), c, rest);
    }
}

/// A link `[label](target)` is replaced by its label, and an image
/// `![alt](target)` by its alt text; what follows is stripped as usual.
pub proof fn law_strip_links(label: Seq<char>, target: Seq<char>, rest: Seq<char>)
    requires
        forall|i: int| 0 <= i < label.len() ==> label[i] != ']',
        forall|i: int| 0 <= i < target.len() ==> target[i] != ')',
    ensures
        strip_inline(seq!['['] + label + seq![']', '('] + target + seq![')'] + rest) == label
            + strip_inline(rest),
        strip_inline(seq!['!', '['] + label + seq![']', '('] + target + seq![')'] + rest) == label
            + strip_inline(rest),
{
    let after = seq!['('] + target + seq![')'] + rest;
    let inner = label + seq![']'] + after;
    lemma_find_after(label, ']', after);
    assert(inner.take(label.len() as int) =~= label);
    assert(inner.skip(label.len() as int + 1) =~= after);
    let t_rest = target + seq![')'] + rest;
    lemma_find_after(target, ')', rest);
    assert(after.drop_first() =~= t_rest);
    assert(t_rest.skip(target.len() as int + 1) =~= rest);
    let link = seq!['['] + label + seq![']', '('] + target + seq![')'] + rest;
    assert(link =~= seq!['['] + inner);
    assert(link.drop_first() =~= inner);
    let image = seq!['!', '['] + label + seq![']', '('] + target + seq![')'] + rest;
    assert(image.drop_first() =~= seq!['['] + inner);
    assert(image.drop_first().drop_first() =~= inner);
}

// ---------------------------------------------------------------------------
// Line classification
// ---------------------------------------------------------------------------

/// Number of leading `#` characters of `s`.
pub open spec fn count_hashes(s: Seq<char>) -> nat
    decreases s.len(),
{
    if s.len() > 0 && s[0] == '#' {
        1 + count_hashes(s.drop_first())
    } else {
        0
    }
}

/// A heading line: one or more `#`, then non-blank text. The level is the
/// number of `#` (at most 255); the text is what follows, trimmed.
pub open spec fn heading_of(line: Seq<char>) -> Option<(u8, Seq<char>)> {
    let n = count_hashes(line);
    if n == 0 {
        None
    } else {
        let rest = trim(line.skip(n as int));
        if rest.len() == 0 {
            None
        } else {
            Some((if n >= 255 { 255u8 } else { n as u8 }, rest))
        }
    }
}

/// Reads a heading line.
fn parse_heading(line: &[char]) -> (r: Option<(u8, Vec<char>)>)
    ensures
        match r {
            Some((level, text)) => heading_of(line@) == Some((level, text@)),
            None => heading_of(line@) is None,
        },
{
    let mut n: usize = 0;
    let mut level: u8 = 0;
    assert(line@.skip(0) =~= line@);
    while n < line.len() && line[n] == '#'
        invariant
            n <= line@.len(),
            count_hashes(line@) == n + count_hashes(line@.skip(n as int)),
            level == (if n >= 255 { 255 } else { n }),
        decreases line@.len() - n,
    {
        assert(line@.skip(n as int).drop_first() =~= line@.skip(n + 1));
        level = if level == 255 { 255 } else { level + 1 };
        n = n + 1;
    }
    if n == 0 {
        return None;
    }
    let rest_raw = copy_range(line, n, line.len());
    assert(rest_raw@ =~= line@.skip(n as int));
    let rest = trim_chars(&rest_raw);
    if rest.len() == 0 {
        return None;
    }
    Some((level, rest))
}

/// Number of leading ASCII digits of `s`.
pub open spec fn count_digits(s: Seq<char>) -> nat
    decreases s.len(),
{
    if s.len() > 0 && '0' <= s[0] && s[0] <= '9' {
        1 + count_digits(s.drop_first())
    } else {
        0
    }
}

/// A list item line: after leading whitespace, `- `, `* ` or `+ ` (an
/// unordered item), or digits then `. ` (an ordered item). Gives whether the
/// item is ordered and the text after the marker.
pub open spec fn list_item_of(line: Seq<char>) -> Option<(bool, Seq<char>)> {
    let t = trim_start(line);
    if starts_with(t, seq!['-', ' ']) || starts_with(t, seq!['*', ' ']) || starts_with(
        t,
        seq!['+', ' '],
    ) {
        Some((false, t.skip(2)))
    } else {
        let d = count_digits(t);
        if d > 0 && d + 1 < t.len() && t[d as int] == '.' && t[(d + 1) as int] == ' ' {
            Some((true, t.skip((d + 2) as int)))
        } else {
            None
        }
    }
}

/// Reads a list item line.
fn parse_list_item(line: &[char]) -> (r: Option<(bool, Vec<char>)>)
    ensures
        match r {
            Some((ordered, text)) => list_item_of(line@) == Some((ordered, text@)),
            None => list_item_of(line@) is None,
        },
{
    let t = trim_start_chars(line);
    let ghost tv = t@;
    let dash = ['-', ' '];
    let star = ['*', ' '];
    let plus = ['+', ' '];
    assert(dash@ =~= seq!['-', ' ']);
    assert(star@ =~= seq!['*', ' ']);
    assert(plus@ =~= seq!['+', ' ']);
    if starts_with_chars(&t, &dash) || starts_with_chars(&t, &star) || starts_with_chars(&t, &plus) {
        let rest = copy_range(&t, 2, t.len());
        assert(rest@ =~= tv.skip(2));
        return Some((false, rest));
    }
    let mut d: usize = 0;
    assert(tv.skip(0) =~= tv);
    while d < t.len() && '0' <= t[d] && t[d] <= '9'
        invariant
            d <= tv.len(),
            t@ == tv,
            count_digits(tv) == d + count_digits(tv.skip(d as int)),
        decreases tv.len() - d,
    {
        assert(tv.skip(d as int).drop_first() =~= tv.skip(d + 1));
        d = d + 1;
    }
    assert(d < tv.len() ==> !('0' <= tv.skip(d as int)[0] && tv.skip(d as int)[0] <= '9'));
    assert(count_digits(tv) == d);
    if d > 0 && d < t.len() && t.len() - d > 1 && t[d] == '.' && t[d + 1] == ' ' {
        let rest = copy_range(&t, d + 2, t.len());
        assert(rest@ =~= tv.skip(d + 2));
        return Some((true, rest));
    }
    None
}

/// A block quote line: after leading whitespace, `>`; gives the rest with
/// its leading whitespace removed.
pub open spec fn quote_of(line: Seq<char>) -> Option<Seq<char>> {
    let t = trim_start(line);
    if t.len() > 0 && t[0] == '>' {
        Some(trim_start(t.drop_first()))
    } else {
        None
    }
}

/// Reads a block quote line.
fn parse_blockquote(line: &[char]) -> (r: Option<Vec<char>>)
    ensures
        match r {
            Some(text) => quote_of(line@) == Some(text@),
            None => quote_of(line@) is None,
        },
{
    let t = trim_start_chars(line);
    if t.len() > 0 && t[0] == '>' {
        let rest = copy_range(&t, 1, t.len());
        assert(rest@ =~= t@.drop_first());
        Some(trim_start_chars(&rest))
    } else {
        None
    }
}

/// A code fence: the line begins with three backticks.
pub open spec fn is_fence(t: Seq<char>) -> bool {
    starts_with(t, seq!['`', '`', '`'])
}

/// `t` with every leading run of three backticks removed.
pub open spec fn strip_fences(t: Seq<char>) -> Seq<char>
    decreases t.len(),
{
    if is_fence(t) {
        strip_fences(t.skip(3))
    } else {
        t
    }
}

/// The info string of an opening fence line, if it has a non-blank one.
pub open spec fn fence_info(t: Seq<char>) -> Option<Seq<char>> {
    let info = trim(strip_fences(t));
    if info.len() == 0 {
        None
    } else {
        Some(info)
    }
}

/// Whether a line is a code fence.
fn fence(t: &[char]) -> (r: bool)
    ensures
        r == is_fence(t@),
{
    let f = ['`', '`', '`'];
    assert(f@ =~= seq!['`', '`', '`']);
    starts_with_chars(t, &f)
}

/// The info string of an opening fence line.
fn parse_fence_info(t: &[char]) -> (r: Option<Vec<char>>)
    ensures
        match r {
            Some(i) => fence_info(t@) == Some(i@),
            None => fence_info(t@) is None,
        },
{
    let mut p: usize = 0;
    assert(t@.skip(0) =~= t@);
    let f = ['`', '`', '`'];
    assert(f@ =~= seq!['`', '`', '`']);
    while t.len() - p >= 3 && t[p] == '`' && t[p + 1] == '`' && t[p + 2] == '`'
        invariant
            p <= t@.len(),
            strip_fences(t@) == strip_fences(t@.skip(p as int)),
        decreases t@.len() - p,
    {
        assert(is_fence(t@.skip(p as int))) by {
            assert(t@.skip(p as int).subrange(0, 3) =~= seq!['`', '`', '`']);
        }
        assert(t@.skip(p as int).skip(3) =~= t@.skip(p + 3));
        p = p + 3;
    }
    assert(!is_fence(t@.skip(p as int))) by {
        if is_fence(t@.skip(p as int)) {
            assert(t@.skip(p as int).subrange(0, 3)[0] == '`');
            assert(t@.skip(p as int).subrange(0, 3)[1] == '`');
            assert(t@.skip(p as int).subrange(0, 3)[2] == '`');
        }
    }
    let rest = copy_range(t, p, t.len());
    assert(rest@ =~= t@.skip(p as int));
    let info = trim_chars(&rest);
    if info.len() == 0 {
        None
    } else {
        Some(info)
    }
}

// ---------------------------------------------------------------------------
// Joining lines
// ---------------------------------------------------------------------------

/// The lines `ls` joined with `'\n'` between them.
pub open spec fn join_lines(ls: Seq<Seq<char>>) -> Seq<char>
    decreases ls.len(),
{
    if ls.len() == 0 {
        Seq::empty()
    } else if ls.len() == 1 {
        ls[0]
    } else {
        join_lines(ls.drop_last()) + seq!['\n'] + ls.last()
    }
}

/// Joins lines with `'\n'`.
fn join_with_newlines(ls: &Vec<Vec<char>>) -> (r: Vec<char>)
    ensures
        r@ == join_lines(views(ls@)),
{
    let mut out: Vec<char> = Vec::new();
    let mut i: usize = 0;
    while i < ls.len()
        invariant
            i <= ls@.len(),
            out@ == join_lines(views(ls@).take(i as int)),
        decreases ls@.len() - i,
    {
        let ghost before = out@;
        if i > 0 {
            out.push('\n');
        }
        let line = &ls[i];
        let mut j: usize = 0;
        let ghost mid = out@;
        while j < line.len()
            invariant
                j <= line@.len(),
                out@ == mid + line@.take(j as int),
            decreases line@.len() - j,
        {
            out.push(line[j]);
            assert(line@.take(j + 1) =~= line@.take(j as int).push(line@[j as int]));
            j = j + 1;
        }
        assert(line@.take(line@.len() as int) =~= line@);
        assert(views(ls@).take(i + 1).drop_last() =~= views(ls@).take(i as int));
        assert(views(ls@).take(i + 1).last() == line@);
        if i == 0 {
            assert(out@ =~= join_lines(views(ls@).take(i + 1)));
        } else {
            assert(out@ =~= join_lines(views(ls@).take(i + 1)));
        }
        i = i + 1;
    }
    assert(views(ls@).take(ls@.len() as int) =~= views(ls@));
    out
}


// ---------------------------------------------------------------------------
// The reader's state machine
// ---------------------------------------------------------------------------

/// What the reader knows after some lines.
pub struct MdState {
    /// The blocks completed so far.
    pub blocks: Seq<BlockView>,
    /// The lines of the paragraph being read.
    pub para: Seq<Seq<char>>,
    /// Whether a fenced code block is open.
    pub in_code: bool,
    /// The info string of the open code block.
    pub code_info: Option<Seq<char>>,
    /// The lines of the open code block.
    pub code_lines: Seq<Seq<char>>,
    /// The id of the latest list.
    pub list_counter: usize,
    /// Whether the previous line was a list item.
    pub in_list: bool,
}

/// The state before any line.
pub open spec fn md_initial() -> MdState {
    MdState {
        blocks: Seq::empty(),
        para: Seq::empty(),
        in_code: false,
        code_info: None,
        code_lines: Seq::empty(),
        list_counter: 0,
        in_list: false,
    }
}

/// Appends a block, numbered by its position.
pub open spec fn push_block(st: MdState, kind: KindView, text: Seq<char>, raw: Seq<char>) -> MdState {
    MdState {
        blocks: st.blocks.push(
            BlockView { kind: kind, text: text, raw: raw, index: st.blocks.len() as usize },
        ),
        ..st
    }
}

/// Ends the paragraph being read, if any.
pub open spec fn md_flush(st: MdState) -> MdState {
    if st.para.len() == 0 {
        st
    } else {
        let raw = join_lines(st.para);
        MdState {
            para: Seq::empty(),
            ..push_block(st, KindView::Paragraph, strip_inline(raw), raw)
        }
    }
}

/// Closes the open code block.
pub open spec fn md_close_code(st: MdState) -> MdState {
    let text = join_lines(st.code_lines);
    MdState {
        code_lines: Seq::empty(),
        in_code: false,
        code_info: None,
        ..push_block(st, KindView::CodeBlock { info: st.code_info }, text, text)
    }
}

/// The id after `c`, saturating.
pub open spec fn next_list_id(c: usize) -> usize {
    if c == usize::MAX {
        c
    } else {
        (c + 1) as usize
    }
}

/// The state after one more line.
pub open spec fn md_step(st: MdState, line: Seq<char>) -> MdState {
    let t = trim_end(line);
    if st.in_code {
        if is_fence(t) {
            md_close_code(st)
        } else {
            MdState { code_lines: st.code_lines.push(t), ..st }
        }
    } else if is_fence(t) {
        MdState { in_code: true, code_info: fence_info(t), in_list: false, ..md_flush(st) }
    } else if trim(t).len() == 0 {
        MdState { in_list: false, ..md_flush(st) }
    } else if heading_of(t) is Some {
        let (level, text) = heading_of(t)->0;
        MdState {
            in_list: false,
            ..push_block(md_flush(st), KindView::Heading { level: level }, strip_inline(text), t)
        }
    } else if list_item_of(t) is Some {
        let (ordered, text) = list_item_of(t)->0;
        let f = md_flush(st);
        let id = if f.in_list {
            f.list_counter
        } else {
            next_list_id(f.list_counter)
        };
        MdState {
            in_list: true,
            list_counter: id,
            ..push_block(
                f,
                KindView::ListItem { ordered: ordered, list_id: id },
                strip_inline(text),
                t,
            )
        }
    } else if quote_of(t) is Some {
        MdState {
            in_list: false,
            ..push_block(md_flush(st), KindView::BlockQuote, strip_inline(quote_of(t)->0), t)
        }
    } else {
        MdState { para: st.para.push(t), in_list: false, ..st }
    }
}

/// The state after the first `n` of `ls`.
pub open spec fn md_run(ls: Seq<Seq<char>>, n: nat) -> MdState
    decreases n,
{
    if n == 0 {
        md_initial()
    } else {
        md_step(md_run(ls, (n - 1) as nat), ls[n - 1])
    }
}

/// The state once the input has ended: an open code block is closed, an open
/// paragraph is ended.
pub open spec fn md_finish(st: MdState) -> MdState {
    if st.in_code {
        md_close_code(st)
    } else {
        md_flush(st)
    }
}

/// The document that `parse_markdown` reads from `input`.
pub open spec fn markdown_document(input: Seq<char>) -> DocumentView {
    let ls = lines(input);
    DocumentView { raw: input, blocks: md_finish(md_run(ls, ls.len())).blocks }
}

/// Each block's `index` is its position.
pub open spec fn indexed_by_position(blocks: Seq<BlockView>) -> bool {
    forall|i: int| 0 <= i < blocks.len() ==> #[trigger] blocks[i].index == i
}

/// The reader's executable state.
struct MdReader {
    blocks: Vec<Block>,
    para: Vec<Vec<char>>,
    in_code: bool,
    code_info: Option<Vec<char>>,
    code_lines: Vec<Vec<char>>,
    list_counter: usize,
    in_list: bool,
}

impl View for MdReader {
    type V = MdState;

    closed spec fn view(&self) -> MdState {
        MdState {
            blocks: crate::model::block_views(self.blocks@),
            para: views(self.para@),
            in_code: self.in_code,
            code_info: match self.code_info {
                Some(v) => Some(v@),
                None => None,
            },
            code_lines: views(self.code_lines@),
            list_counter: self.list_counter,
            in_list: self.in_list,
        }
    }
}

impl MdReader {
    /// Appends a block numbered by its position.
    fn push(&mut self, kind: BlockKind, text: &[char], raw: &[char])
        requires
            indexed_by_position(old(self)@.blocks),
        ensures
            final(self)@ == push_block(old(self)@, kind@, text@, raw@),
            indexed_by_position(final(self)@.blocks),
    {
        let index = self.blocks.len();
        let b = Block::new(kind, string_of(text), string_of(raw), index);
        let ghost before = self.blocks@;
        self.blocks.push(b);
        assert(crate::model::block_views(self.blocks@) =~= crate::model::block_views(before).push(
            b@,
        ));
    }

    /// Ends the paragraph being read (`flush_paragraph`).
    fn flush_paragraph(&mut self)
        requires
            indexed_by_position(old(self)@.blocks),
        ensures
            final(self)@ == md_flush(old(self)@),
            indexed_by_position(final(self)@.blocks),
    {
        if self.para.len() == 0 {
            return;
        }
        let raw = join_with_newlines(&self.para);
        let text = strip_inline_md(&raw);
        self.push(BlockKind::Paragraph, &text, &raw);
        self.para = Vec::new();
        assert(views(self.para@) =~= Seq::<Seq<char>>::empty());
    }

    /// Closes the open code block.
    fn close_code(&mut self)
        requires
            indexed_by_position(old(self)@.blocks),
        ensures
            final(self)@ == md_close_code(old(self)@),
            indexed_by_position(final(self)@.blocks),
    {
        let text = join_with_newlines(&self.code_lines);
        let info = match &self.code_info {
            Some(v) => Some(string_of(v)),
            None => None,
        };
        self.push(BlockKind::CodeBlock { info }, &text, &text);
        self.code_lines = Vec::new();
        self.in_code = false;
        self.code_info = None;
        assert(views(self.code_lines@) =~= Seq::<Seq<char>>::empty());
    }

    /// Reads one line.
    fn step(&mut self, line: &[char])
        requires
            indexed_by_position(old(self)@.blocks),
        ensures
            final(self)@ == md_step(old(self)@, line@),
            indexed_by_position(final(self)@.blocks),
    {
        let t = trim_end_chars(line);
        if self.in_code {
            if fence(&t) {
                self.close_code();
            } else {
                let ghost before = views(self.code_lines@);
                self.code_lines.push(t);
                assert(views(self.code_lines@) =~= before.push(trim_end(line@)));
            }
            return;
        }
        if fence(&t) {
            self.flush_paragraph();
            self.in_code = true;
            self.code_info = parse_fence_info(&t);
            self.in_list = false;
            return;
        }
        let tt = trim_chars(&t);
        if tt.len() == 0 {
            self.flush_paragraph();
            self.in_list = false;
            return;
        }
        if let Some((level, text)) = parse_heading(&t) {
            self.flush_paragraph();
            let stripped = strip_inline_md(&text);
            self.push(BlockKind::Heading { level }, &stripped, &t);
            self.in_list = false;
            return;
        }
        if let Some((ordered, text)) = parse_list_item(&t) {
            self.flush_paragraph();
            if !self.in_list {
                self.list_counter = if self.list_counter == usize::MAX {
                    usize::MAX
                } else {
                    self.list_counter + 1
                };
            }
            self.in_list = true;
            let stripped = strip_inline_md(&text);
            self.push(BlockKind::ListItem { ordered, list_id: self.list_counter }, &stripped, &t);
            return;
        }
        if let Some(text) = parse_blockquote(&t) {
            self.flush_paragraph();
            let stripped = strip_inline_md(&text);
            self.push(BlockKind::BlockQuote, &stripped, &t);
            self.in_list = false;
            return;
        }
        let ghost before = views(self.para@);
        self.para.push(t);
        assert(views(self.para@) =~= before.push(trim_end(line@)));
        self.in_list = false;
    }
}

/// Reads a Markdown document.
pub fn parse_markdown(input: &str) -> (r: Document)
    ensures
        r@ == markdown_document(input@),
        well_shaped(r@.blocks),
{
    let chars = chars_of(input);
    let ls = split_lines(&chars);
    let mut reader = MdReader {
        blocks: Vec::new(),
        para: Vec::new(),
        in_code: false,
        code_info: None,
        code_lines: Vec::new(),
        list_counter: 0,
        in_list: false,
    };
    assert(reader@ =~= md_initial()) by {
        assert(crate::model::block_views(reader.blocks@) =~= Seq::<BlockView>::empty());
        assert(views(reader.para@) =~= Seq::<Seq<char>>::empty());
        assert(views(reader.code_lines@) =~= Seq::<Seq<char>>::empty());
    }
    let mut i: usize = 0;
    while i < ls.len()
        invariant
            i <= ls@.len(),
            views(ls@) == lines(input@),
            reader@ == md_run(views(ls@), i as nat),
            indexed_by_position(reader@.blocks),
        decreases ls@.len() - i,
    {
        reader.step(&ls[i]);
        assert(views(ls@)[i as int] == ls@[i as int]@);
        i = i + 1;
    }
    if reader.in_code {
        reader.close_code();
    } else {
        reader.flush_paragraph();
    }
    proof {
        law_markdown_well_shaped(input@);
    }
    let r = Document::new(string_of(&chars), reader.blocks);
    r
}

// ---------------------------------------------------------------------------
// The shape of a read document
// ---------------------------------------------------------------------------

/// A heading has level 1 or more.
pub open spec fn level_ok(b: BlockView) -> bool {
    b.kind matches KindView::Heading { level } ==> level >= 1
}

/// Two list items in this order have non-decreasing list ids.
pub open spec fn ids_in_order(a: BlockView, b: BlockView) -> bool {
    match (list_id_of(a), list_id_of(b)) {
        (Some(x), Some(y)) => x <= y,
        _ => true,
    }
}

/// Blocks are numbered by position, headings have a level of at least 1,
/// list ids start at 1 and never decrease along the document.
pub open spec fn well_shaped(bs: Seq<BlockView>) -> bool {
    &&& indexed_by_position(bs)
    &&& forall|i: int| 0 <= i < bs.len() ==> level_ok(#[trigger] bs[i])
    &&& forall|i: int| 0 <= i < bs.len() ==> (list_id_of(#[trigger] bs[i]) matches Some(id) ==> id >= 1)
    &&& forall|i: int, j: int| 0 <= i < j < bs.len() ==> ids_in_order(#[trigger] bs[i], #[trigger] bs[j])
}

/// The blocks completed or being read (an open paragraph or code block
/// counts as one).
spec fn md_count(st: MdState) -> nat {
    st.blocks.len() + (if st.para.len() > 0 { 1nat } else { 0nat }) + (if st.in_code { 1nat } else { 0nat })
}

/// What holds of the reader's state after `n` lines: its blocks are well
/// shaped, their list ids are at most the current list id, that id is at
/// least 1 inside a list, and there are at most `n` blocks.
spec fn md_inv(st: MdState, n: nat) -> bool {
    &&& well_shaped(st.blocks)
    &&& forall|i: int| 0 <= i < st.blocks.len() ==> (list_id_of(#[trigger] st.blocks[i]) matches Some(id) ==> id <= st.list_counter)
    &&& st.in_list ==> st.list_counter >= 1
    &&& md_count(st) <= n
    &&& n <= usize::MAX
}

proof fn lemma_push_shape(st: MdState, n: nat, kind: KindView, text: Seq<char>, raw: Seq<char>, c: usize)
    requires
        md_inv(st, n),
        st.blocks.len() < n,
        st.list_counter <= c,
        kind matches KindView::Heading { level } ==> level >= 1,
        kind matches KindView::ListItem { list_id, .. } ==> 1 <= list_id && st.list_counter <= list_id <= c,
    ensures
        ({
            let p = push_block(st, kind, text, raw);
            &&& well_shaped(p.blocks)
            &&& forall|i: int| 0 <= i < p.blocks.len() ==> (list_id_of(#[trigger] p.blocks[i]) matches Some(id) ==> id <= c)
            &&& p.blocks.len() == st.blocks.len() + 1
        }),
{
    let nb = push_block(st, kind, text, raw).blocks;
    let n0 = st.blocks.len() as int;
    assert(nb[n0].kind == kind);
    assert(nb[n0].index == n0);
    assert forall|i: int| 0 <= i < nb.len() implies #[trigger] nb[i].index == i by {
        if i < n0 {
            assert(nb[i] == st.blocks[i]);
        }
    }
    assert forall|i: int| 0 <= i < nb.len() implies level_ok(#[trigger] nb[i]) by {
        if i < n0 {
            assert(nb[i] == st.blocks[i]);
        }
    }
    assert forall|i: int| 0 <= i < nb.len() implies (list_id_of(#[trigger] nb[i]) matches Some(id) ==> id >= 1 && id <= c) by {
        if i < n0 {
            assert(nb[i] == st.blocks[i]);
        }
    }
    assert forall|i: int, j: int| 0 <= i < j < nb.len() implies ids_in_order(#[trigger] nb[i], #[trigger] nb[j]) by {
        assert(nb[i] == st.blocks[i]);
        if j < n0 {
            assert(nb[j] == st.blocks[j]);
        }
    }
}

proof fn lemma_flush_shape(st: MdState, n: nat)
    requires
        md_inv(st, n),
    ensures
        md_inv(md_flush(st), n),
        md_flush(st).list_counter == st.list_counter,
        md_flush(st).in_list == st.in_list,
        md_flush(st).para.len() == 0,
        md_flush(st).in_code == st.in_code,
{
    if st.para.len() > 0 {
        let raw = join_lines(st.para);
        lemma_push_shape(st, n, KindView::Paragraph, strip_inline(raw), raw, st.list_counter);
    }
}

proof fn lemma_close_shape(st: MdState, n: nat)
    requires
        md_inv(st, n),
        st.in_code,
    ensures
        md_inv(md_close_code(st), n),
{
    let text = join_lines(st.code_lines);
    lemma_push_shape(st, n, KindView::CodeBlock { info: st.code_info }, text, text, st.list_counter);
}

proof fn lemma_step_shape(st: MdState, n: nat, line: Seq<char>)
    requires
        md_inv(st, n),
        n < usize::MAX,
    ensures
        md_inv(md_step(st, line), n + 1),
{
    let t = trim_end(line);
    let n1 = (n + 1) as nat;
    if st.in_code {
        if is_fence(t) {
            lemma_close_shape(st, n);
        }
    } else if is_fence(t) {
        lemma_flush_shape(st, n);
    } else if trim(t).len() == 0 {
        lemma_flush_shape(st, n);
    } else if heading_of(t) is Some {
        let (level, text) = heading_of(t)->0;
        let f = md_flush(st);
        lemma_flush_shape(st, n);
        assert(level >= 1);
        lemma_push_shape(f, n1, KindView::Heading { level: level }, strip_inline(text), t, f.list_counter);
    } else if list_item_of(t) is Some {
        let (ordered, text) = list_item_of(t)->0;
        let f = md_flush(st);
        lemma_flush_shape(st, n);
        let id = if f.in_list {
            f.list_counter
        } else {
            next_list_id(f.list_counter)
        };
        lemma_push_shape(f, n1, KindView::ListItem { ordered: ordered, list_id: id }, strip_inline(text), t, id);
    } else if quote_of(t) is Some {
        let f = md_flush(st);
        lemma_flush_shape(st, n);
        lemma_push_shape(f, n1, KindView::BlockQuote, strip_inline(quote_of(t)->0), t, f.list_counter);
    }
}

proof fn lemma_run_shape(ls: Seq<Seq<char>>, n: nat)
    requires
        n <= ls.len(),
        ls.len() <= usize::MAX,
    ensures
        md_inv(md_run(ls, n), n),
    decreases n,
{
    if n > 0 {
        lemma_run_shape(ls, (n - 1) as nat);
        lemma_step_shape(md_run(ls, (n - 1) as nat), (n - 1) as nat, ls[n - 1]);
    }
}

/// Every document read from Markdown is well shaped: its blocks are
/// numbered by position, each heading has a level of at least 1, and list
/// items carry list ids of at least 1 that never decrease along the
/// document.
pub proof fn law_markdown_well_shaped(input: Seq<char>)
    requires
        lines(input).len() <= usize::MAX,
    ensures
        well_shaped(markdown_document(input).blocks),
{
    let ls = lines(input);
    let st = md_run(ls, ls.len());
    lemma_run_shape(ls, ls.len());
    if st.in_code {
        lemma_close_shape(st, ls.len());
    } else {
        lemma_flush_shape(st, ls.len());
    }
}

} // verus!
