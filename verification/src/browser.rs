//! The state of the page browser: tabs, each with a Markdown file, its
//! document and its analysis; and the texts the browser shows.
use vstd::prelude::*;
use crate::analysis::{AnalysisReport, Violation, analysis_of, analyze_document};
use crate::markdown::{markdown_document, parse_markdown};
use crate::model::{Document, kind_label};
use crate::text::{chars_of, contains, decimal, owned, push_char, push_decimal, string_of, trim, trim_chars};

verus! {

/// The fewest tabs the browser keeps.
pub const MIN_TAB_COUNT: usize = 1;

/// One tab of the browser.
pub struct TabState {
    pub markdown_path: String,
    pub document: Option<Document>,
    pub report: Option<AnalysisReport>,
    pub last_error: Option<String>,
}

/// The browser: its tabs and which one is shown.
pub struct BrowserTestApp {
    pub dark_mode: bool,
    pub tabs: Vec<TabState>,
    pub active_tab: usize,
}

/// `n + 1`, saturating.
pub open spec fn succ_sat(n: usize) -> nat {
    if n == usize::MAX {
        n as nat
    } else {
        (n + 1) as nat
    }
}

/// The fallback title of tab number `index` (counted from 0).
pub open spec fn tab_label(index: usize) -> Seq<char> {
    "Tab "@ + decimal(succ_sat(index))
}

/// The title of a tab: the file name when the path is not blank and has
/// one, the fallback otherwise.
pub open spec fn title_of_tab(path: Seq<char>, file_name: Option<Seq<char>>, index: usize) -> Seq<char> {
    if trim(path).len() == 0 {
        tab_label(index)
    } else {
        match file_name {
            Some(n) => n,
            None => tab_label(index),
        }
    }
}

/// A plain path component: not empty, not `.` or `..`, and free of the
/// characters that separate components or begin a prefix on any platform
/// (`/`, `\\`, `:`).
pub open spec fn plain_component(s: Seq<char>) -> bool {
    &&& s.len() > 0
    &&& s != "."@
    &&& s != ".."@
    &&& forall|i: int| 0 <= i < s.len() ==> #[trigger] s[i] != '/' && s[i] != '\\' && s[i] != ':'
}

/// Whether `p` is `d/n` split at position `k`, with `d` and `n` plain
/// components.
pub open spec fn plain_pair_at(p: Seq<char>, k: int) -> bool {
    &&& 0 <= k < p.len()
    &&& p[k] == '/'
    &&& plain_component(p.take(k))
    &&& plain_component(p.skip(k + 1))
}

/// The `n` of a path `d/n` made of two plain components.
pub open spec fn plain_pair_name(p: Seq<char>) -> Option<Seq<char>> {
    if exists|k: int| #[trigger] plain_pair_at(p, k) {
        let k = choose|k: int| #[trigger] plain_pair_at(p, k);
        Some(p.skip(k + 1))
    } else {
        None
    }
}

/// `d/n`, for plain components `d` and `n`, has the pair name `n`.
pub proof fn lemma_plain_pair_name(d: Seq<char>, n: Seq<char>)
    requires
        plain_component(d),
        plain_component(n),
    ensures
        plain_pair_name(d + seq!['/'] + n) == Some(n),
{
    let p = d + seq!['/'] + n;
    let k0 = d.len() as int;
    assert(p.take(k0) =~= d);
    assert(p.skip(k0 + 1) =~= n);
    assert(plain_pair_at(p, k0));
    let k = choose|k: int| #[trigger] plain_pair_at(p, k);
    if k < k0 {
        assert(p[k] == d[k]);
    } else if k > k0 {
        assert(p[k] == n[k - k0 - 1]);
    }
}

/// The final component of a path (`Path::file_name`, taken as text).
///
/// Claims that a name it gives is a non-empty part of the path; that a path
/// made of one plain component is its own name; and that `d/n`, with `d` and
/// `n` plain components, has the name `n` (`/` separates components on
/// every platform). What it gives for other paths (a trailing `..`, Windows
/// prefixes, non-UTF-8 names) is left unsaid: that depends on the
/// platform's path syntax.
#[verifier::external_body]
fn file_name_of(path: &str) -> (r: Option<String>)
    ensures
        r matches Some(n) ==> (n@.len() > 0 && contains(path@, n@)),
        plain_component(path@) ==> r is Some && r->0@ == path@,
        plain_pair_name(path@) is Some ==> r is Some && r->0@ == plain_pair_name(path@)->0,
{
    match std::path::Path::new(path).file_name() {
        Some(name) => match name.to_str() {
            Some(s) => Some(s.to_string()),
            None => None,
        },
        None => None,
    }
}

/// `text`, or its first `limit` characters and `...` when it is longer.
pub open spec fn summary_of(text: Seq<char>, limit: usize) -> Seq<char> {
    if text.len() <= limit {
        text
    } else {
        text.take(limit as int) + "..."@
    }
}

/// Shortens `text` to `limit` characters.
pub fn summarize(text: &str, limit: usize) -> (r: String)
    ensures
        r@ == summary_of(text@, limit),
{
    let chars = chars_of(text);
    if chars.len() <= limit {
        return owned(text);
    }
    let mut trimmed = String::new();
    let mut idx: usize = 0;
    while idx < limit
        invariant
            idx <= limit < chars@.len(),
            trimmed@ == chars@.take(idx as int),
        decreases limit - idx,
    {
        push_char(&mut trimmed, chars[idx]);
        assert(chars@.take(idx + 1) =~= chars@.take(idx as int).push(chars@[idx as int]));
        idx = idx + 1;
    }
    trimmed.append("...");
    trimmed
}

/// The title from its parts (see `title_of_tab`).
pub fn title_from(path: &str, file_name: Option<String>, index: usize) -> (r: String)
    ensures
        r@ == title_of_tab(path@, crate::model::opt_view(file_name), index),
{
    if trim_chars(&chars_of(path)).len() == 0 {
        return fallback_title(index);
    }
    match file_name {
        Some(n) => n,
        None => fallback_title(index),
    }
}

/// `Tab N`.
fn fallback_title(index: usize) -> (r: String)
    ensures
        r@ == tab_label(index),
{
    let mut s = owned("Tab ");
    let n: usize = if index == usize::MAX {
        index
    } else {
        index + 1
    };
    push_decimal(&mut s, n as u64);
    s
}

/// The status line of a report.
pub open spec fn status_text(violation_count: nat) -> Seq<char> {
    if violation_count > 0 {
        "Hard fail: "@ + decimal(violation_count) + " violation(s)"@
    } else {
        "No violations"@
    }
}

/// The heading of a finding: its constraint and summary, marked when it
/// rests on an assumption.
pub open spec fn heading_text(v: crate::analysis::ViolationView) -> Seq<char> {
    "Constraint "@ + decimal(v.constraint_id as nat) + ": "@ + v.summary + if v.assumption {
        " (v0 assumption)"@
    } else {
        Seq::<char>::empty()
    }
}

/// Where a finding is: the kind, number and summarized text of its block,
/// when the finding names a block of the document.
pub open spec fn location_text(
    v: crate::analysis::ViolationView,
    doc: Option<crate::model::DocumentView>,
) -> Option<Seq<char>> {
    match (v.block_index, doc) {
        (Some(i), Some(d)) => if i < d.blocks.len() {
            Some(
                "Location: "@ + kind_label(d.blocks[i as int].kind) + " #"@ + decimal(
                    (i + 1) as nat,
                ) + " - "@ + summary_of(d.blocks[i as int].text, 80),
            )
        } else {
            None
        },
        _ => None,
    }
}

/// The status line of a report.
pub fn report_status(report: &AnalysisReport) -> (r: String)
    ensures
        r@ == status_text(report.violations@.len()),
{
    if report.hard_fail() {
        let mut s = owned("Hard fail: ");
        push_decimal(&mut s, report.violations.len() as u64);
        s.append(" violation(s)");
        s
    } else {
        owned("No violations")
    }
}

/// The heading of a finding.
pub fn violation_heading(v: &Violation) -> (r: String)
    ensures
        r@ == heading_text(v@),
{
    let mut s = owned("Constraint ");
    push_decimal(&mut s, v.constraint_id as u64);
    s.append(": ");
    s.append(v.summary.as_str());
    if v.assumption {
        s.append(" (v0 assumption)");
    }
    s
}

/// Where a finding is.
pub fn violation_location(v: &Violation, doc: Option<&Document>) -> (r: Option<String>)
    ensures
        crate::model::opt_view(r) == location_text(
            v@,
            match doc {
                Some(d) => Some(d@),
                None => None,
            },
        ),
{
    match (v.block_index, doc) {
        (Some(i), Some(d)) => {
            if i < d.blocks.len() {
                let block = &d.blocks[i];
                let mut s = owned("Location: ");
                s.append(block.kind.label());
                s.append(" #");
                push_decimal(&mut s, (i + 1) as u64);
                s.append(" - ");
                let snippet = summarize(block.text.as_str(), 80);
                s.append(snippet.as_str());
                assert(d@.blocks[i as int] == block@);
                Some(s)
            } else {
                None
            }
        },
        _ => None,
    }
}

/// A tab with no path, document, report or error.
pub open spec fn is_empty_tab(t: TabState) -> bool {
    &&& t.markdown_path@.len() == 0
    &&& t.document is None
    &&& t.report is None
    &&& t.last_error is None
}

impl TabState {
    /// A tab with no path, document, report or error.
    pub fn new() -> (r: Self)
        ensures
            is_empty_tab(r),
    {
        Self { markdown_path: String::new(), document: None, report: None, last_error: None }
    }

    /// The tab's title, for tab number `index`: the file name of the trimmed
    /// path (so `notes/ideas.md` gives `ideas.md`), or `Tab N` when the path
    /// is blank or names no file.
    pub fn title(&self, index: usize) -> (r: String)
        ensures
            r@.len() > 0,
            trim(self.markdown_path@).len() == 0 ==> r@ == tab_label(index),
            trim(self.markdown_path@).len() > 0 ==> r@ == tab_label(index) || contains(
                trim(self.markdown_path@),
                r@,
            ),
            plain_component(trim(self.markdown_path@)) ==> r@ == trim(self.markdown_path@),
            forall|d: Seq<char>, n: Seq<char>|
                #![trigger plain_component(d), plain_component(n)]
                plain_component(d) && plain_component(n) && trim(self.markdown_path@) == d + seq!['/']
                    + n ==> r@ == n,
    {
        let trimmed = string_of(&trim_chars(&chars_of(self.markdown_path.as_str())));
        let name = file_name_of(trimmed.as_str());
        proof {
            crate::text::lemma_trim_start_idempotent(self.markdown_path@);
            reveal_strlit("Tab ");
            assert forall|d: Seq<char>, n: Seq<char>|
                #![trigger plain_component(d), plain_component(n)]
                plain_component(d) && plain_component(n) && trimmed@ == d + seq!['/'] + n implies
                plain_pair_name(trimmed@) == Some(n) by {
                lemma_plain_pair_name(d, n);
            }
            crate::text::lemma_trim_edges(self.markdown_path@);
            if trimmed@.len() > 0 {
                crate::text::lemma_trim_keeps(trimmed@);
            }
        }
        title_from(trimmed.as_str(), name, index)
    }

    /// Starts loading: gives the trimmed path to read, or, when the path is
    /// blank, clears the tab and records the error.
    pub fn begin_load(&mut self) -> (r: Option<String>)
        ensures
            trim(old(self).markdown_path@).len() == 0 ==> {
                &&& r is None
                &&& final(self).document is None
                &&& final(self).report is None
                &&& final(self).last_error matches Some(e) && e@
                    == "Please enter a Markdown file path."@
                &&& final(self).markdown_path == old(self).markdown_path
            },
            trim(old(self).markdown_path@).len() > 0 ==> {
                &&& r matches Some(p) && p@ == trim(old(self).markdown_path@)
                &&& *final(self) == *old(self)
            },
    {
        let trimmed = trim_chars(&chars_of(self.markdown_path.as_str()));
        if trimmed.len() == 0 {
            self.document = None;
            self.report = None;
            self.last_error = Some(owned("Please enter a Markdown file path."));
            return None;
        }
        Some(string_of(&trimmed))
    }

    /// Finishes loading with what reading the file gave: its content, or
    /// the text of the reading error.
    pub fn finish_load(&mut self, read: Result<String, String>)
        ensures
            final(self).markdown_path == old(self).markdown_path,
            match read {
                Ok(content) => {
                    &&& final(self).document matches Some(d) && d@ == markdown_document(content@)
                    &&& final(self).report matches Some(rep) && rep@ == analysis_of(
                        markdown_document(content@).blocks,
                    )
                    &&& final(self).last_error is None
                },
                Err(msg) => {
                    &&& final(self).document is None
                    &&& final(self).report is None
                    &&& final(self).last_error matches Some(e) && e@ == "Failed to read file: "@
                        + msg@
                },
            },
    {
        match read {
            Ok(content) => {
                let document = parse_markdown(content.as_str());
                let report = analyze_document(&document);
                self.document = Some(document);
                self.report = Some(report);
                self.last_error = None;
            },
            Err(msg) => {
                self.document = None;
                self.report = None;
                let mut e = owned("Failed to read file: ");
                e.append(msg.as_str());
                self.last_error = Some(e);
            },
        }
    }
}

impl BrowserTestApp {
    /// A browser with one empty tab, shown.
    pub fn with_dark_mode(dark_mode: bool) -> (r: Self)
        ensures
            r.dark_mode == dark_mode,
            r.tabs@.len() == 1,
            is_empty_tab(r.tabs@[0]),
            r.active_tab == 0,
    {
        let mut tabs: Vec<TabState> = Vec::new();
        tabs.push(TabState::new());
        Self { dark_mode, tabs, active_tab: 0 }
    }

    /// Adds an empty tab and shows it.
    pub fn add_tab(&mut self)
        ensures
            final(self).tabs@.len() == old(self).tabs@.len() + 1,
            final(self).tabs@.take(old(self).tabs@.len() as int) == old(self).tabs@,
            is_empty_tab(final(self).tabs@.last()),
            final(self).active_tab == old(self).tabs@.len(),
            final(self).dark_mode == old(self).dark_mode,
    {
        self.tabs.push(TabState::new());
        self.active_tab = self.tabs.len() - 1;
        assert(self.tabs@.take(old(self).tabs@.len() as int) =~= old(self).tabs@);
    }

    /// Shows tab `index`, when there is such a tab.
    pub fn select_tab(&mut self, index: usize)
        ensures
            final(self).tabs@ == old(self).tabs@,
            final(self).dark_mode == old(self).dark_mode,
            final(self).active_tab == if index < old(self).tabs@.len() {
                index
            } else {
                old(self).active_tab
            },
    {
        if index < self.tabs.len() {
            self.active_tab = index;
        }
    }

    /// Closes tab `index`, unless it is the only tab or does not exist; the
    /// shown tab stays the same tab when it remains, and otherwise becomes
    /// the last tab.
    pub fn close_tab(&mut self, index: usize)
        ensures
            final(self).dark_mode == old(self).dark_mode,
            old(self).tabs@.len() >= 1 ==> final(self).tabs@.len() >= 1,
            old(self).active_tab < old(self).tabs@.len() ==> final(self).active_tab
                < final(self).tabs@.len(),
            old(self).tabs@.len() <= MIN_TAB_COUNT || index >= old(self).tabs@.len() ==> *final(self)
                == *old(self),
            old(self).tabs@.len() > MIN_TAB_COUNT && index < old(self).tabs@.len() ==> {
                &&& final(self).tabs@ == old(self).tabs@.remove(index as int)
                &&& final(self).active_tab == if old(self).active_tab >= final(self).tabs@.len() {
                    (final(self).tabs@.len() - 1) as usize
                } else if old(self).active_tab > index {
                    (old(self).active_tab - 1) as usize
                } else {
                    old(self).active_tab
                }
            },
    {
        if self.tabs.len() <= MIN_TAB_COUNT || index >= self.tabs.len() {
            return;
        }
        self.tabs.remove(index);
        if self.active_tab >= self.tabs.len() {
            self.active_tab = self.tabs.len() - 1;
        } else if self.active_tab > index {
            self.active_tab = self.active_tab - 1;
        }
    }

    /// The shown tab, if the shown index is a tab.
    pub fn active_tab_mut(&mut self) -> (r: Option<&mut TabState>)
        ensures
            old(self).active_tab >= old(self).tabs@.len() ==> r is None && *final(self) == *old(self),
            old(self).active_tab < old(self).tabs@.len() ==> r is Some,
            r matches Some(t) ==> *t == old(self).tabs@[old(self).active_tab as int]
                && final(self).tabs@ == old(self).tabs@.update(old(self).active_tab as int, *final(t))
                && final(self).active_tab == old(self).active_tab
                && final(self).dark_mode == old(self).dark_mode,
    {
        if self.active_tab < self.tabs.len() {
            Some(&mut self.tabs[self.active_tab])
        } else {
            None
        }
    }
}

} // verus!
