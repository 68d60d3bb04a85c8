//! Reports of the hard-constraint checker.
use vstd::prelude::*;
use crate::constraint::{ConstraintId, Severity, severity_text, suggestion_of, title_of};
use crate::model::opt_view;
use crate::text::{decimal, owned, push_decimal};

verus! {

/// The version written into every report.
pub const REPORT_VERSION: &'static str = "0.1";

/// What shows a violation.
#[derive(Debug, Clone)]
pub struct Evidence {
    /// The pieces of text that were detected.
    pub snippets: Vec<String>,
    /// The line the violation was found at (counting from 0).
    pub line: Option<usize>,
    /// The text around it.
    pub context: Option<String>,
}

/// One violation.
#[derive(Debug, Clone)]
pub struct Violation {
    pub constraint_id: ConstraintId,
    pub title: String,
    pub severity: Severity,
    pub evidence: Evidence,
    pub suggestions: Vec<String>,
}

/// A check's report.
#[derive(Debug, Clone)]
pub struct Report {
    pub version: String,
    pub violations: Vec<Violation>,
}

/// Mathematical model of an `Evidence`.
pub struct EvidenceView {
    pub snippets: Seq<Seq<char>>,
    pub line: Option<usize>,
    pub context: Option<Seq<char>>,
}

/// Mathematical model of a `Violation`.
pub struct ViolationView {
    pub constraint_id: u8,
    pub title: Seq<char>,
    pub severity: Severity,
    pub evidence: EvidenceView,
    pub suggestions: Seq<Seq<char>>,
}

/// Mathematical model of a `Report`.
pub struct ReportView {
    pub version: Seq<char>,
    pub violations: Seq<ViolationView>,
}

/// The models of a sequence of strings.
pub open spec fn strings_view(ss: Seq<String>) -> Seq<Seq<char>> {
    ss.map_values(|s: String| s@)
}

/// The models of a sequence of violations.
pub open spec fn violations_view(vs: Seq<Violation>) -> Seq<ViolationView> {
    vs.map_values(|v: Violation| v@)
}

impl View for Evidence {
    type V = EvidenceView;

    open spec fn view(&self) -> EvidenceView {
        EvidenceView {
            snippets: strings_view(self.snippets@),
            line: self.line,
            context: opt_view(self.context),
        }
    }
}

impl View for Violation {
    type V = ViolationView;

    open spec fn view(&self) -> ViolationView {
        ViolationView {
            constraint_id: self.constraint_id.0,
            title: self.title@,
            severity: self.severity,
            evidence: self.evidence@,
            suggestions: strings_view(self.suggestions@),
        }
    }
}

impl View for Report {
    type V = ReportView;

    open spec fn view(&self) -> ReportView {
        ReportView { version: self.version@, violations: violations_view(self.violations@) }
    }
}

impl Evidence {
    /// Evidence made of `snippets`, with no line and no context.
    pub fn new(snippets: Vec<String>) -> (r: Self)
        ensures
            r.snippets == snippets,
            r.line is None,
            r.context is None,
    {
        Self { snippets, line: None, context: None }
    }

    /// The same evidence at `line`.
    pub fn with_line(self, line: usize) -> (r: Self)
        ensures
            r.snippets == self.snippets,
            r.line == Some(line),
            r.context == self.context,
    {
        let mut e = self;
        e.line = Some(line);
        e
    }

    /// The same evidence with `context`.
    pub fn with_context(self, context: String) -> (r: Self)
        ensures
            r.snippets == self.snippets,
            r.line == self.line,
            r.context == Some(context),
    {
        let mut e = self;
        e.context = Some(context);
        e
    }
}

impl Evidence {
    /// The same evidence with an optional context.
    pub fn with_context_opt(self, context: Option<String>) -> (r: Self)
        ensures
            r.snippets == self.snippets,
            r.line == self.line,
            r.context == context,
    {
        let mut e = self;
        e.context = context;
        e
    }
}

impl Violation {
    /// A hard-fail violation of `constraint_id`, titled after the constraint.
    pub fn new(constraint_id: ConstraintId, evidence: Evidence, suggestions: Vec<String>) -> (r: Self)
        ensures
            r.constraint_id == constraint_id,
            r.title@ == title_of(constraint_id.0),
            r.severity == Severity::HardFail,
            r.evidence == evidence,
            r.suggestions == suggestions,
    {
        Self {
            constraint_id,
            title: owned(constraint_id.title()),
            severity: Severity::HardFail,
            evidence,
            suggestions,
        }
    }

    /// A hard-fail violation of `constraint_id` with the constraint's own
    /// remedy as its only suggestion.
    pub fn with_default_suggestion(constraint_id: ConstraintId, evidence: Evidence) -> (r: Self)
        ensures
            r.constraint_id == constraint_id,
            r.title@ == title_of(constraint_id.0),
            r.severity == Severity::HardFail,
            r.evidence == evidence,
            strings_view(r.suggestions@) == seq![suggestion_of(constraint_id.0)],
    {
        let mut suggestions: Vec<String> = Vec::new();
        suggestions.push(owned(constraint_id.suggestion()));
        assert(strings_view(suggestions@) =~= seq![suggestion_of(constraint_id.0)]);
        Self::new(constraint_id, evidence, suggestions)
    }
}

// ---------------------------------------------------------------------------
// The human-readable report
// ---------------------------------------------------------------------------

/// Each snippet on a line of its own.
pub open spec fn snippets_text(ss: Seq<Seq<char>>) -> Seq<char>
    decreases ss.len(),
{
    if ss.len() == 0 {
        Seq::empty()
    } else {
        snippets_text(ss.drop_last()) + "  - 「"@ + ss.last() + "」\n"@
    }
}

/// Each suggestion on a line of its own.
pub open spec fn suggestions_text(ss: Seq<Seq<char>>) -> Seq<char>
    decreases ss.len(),
{
    if ss.len() == 0 {
        Seq::empty()
    } else {
        suggestions_text(ss.drop_last()) + "  → "@ + ss.last() + "\n"@
    }
}

/// The line of a violation, counted from 1.
pub open spec fn line_text(line: Option<usize>) -> Seq<char> {
    match line {
        Some(l) => "行番号: "@ + decimal((l + 1) as nat) + "\n"@,
        None => Seq::empty(),
    }
}

/// The context of a violation.
pub open spec fn context_text(context: Option<Seq<char>>) -> Seq<char> {
    match context {
        Some(c) => "コンテキスト: "@ + c + "\n"@,
        None => Seq::empty(),
    }
}

/// The section for violation number `n` (counted from 1).
pub open spec fn violation_text(n: nat, v: ViolationView) -> Seq<char> {
    "[違反 "@ + decimal(n) + "] 制約"@ + decimal(v.constraint_id as nat) + ": "@ + v.title + "\n"@
        + "重大度: "@ + severity_text(v.severity) + "\n"@ + "検出箇所:\n"@ + snippets_text(
        v.evidence.snippets,
    ) + line_text(v.evidence.line) + context_text(v.evidence.context) + "修正提案:\n"@
        + suggestions_text(v.suggestions) + "\n"@
}

/// The sections of all violations, numbered from 1.
pub open spec fn violations_text(vs: Seq<ViolationView>) -> Seq<char>
    decreases vs.len(),
{
    if vs.len() == 0 {
        Seq::empty()
    } else {
        violations_text(vs.drop_last()) + violation_text(vs.len(), vs.last())
    }
}

/// The human-readable form of a report.
pub open spec fn human_readable(vs: Seq<ViolationView>) -> Seq<char> {
    if vs.len() == 0 {
        "✓ 違反は検出されませんでした。\n"@
    } else {
        "⚠ "@ + decimal(vs.len()) + " 件の違反が検出されました\n"@
            + "========================================\n\n"@ + violations_text(vs)
    }
}

/// No violation is at the last representable line (its number, counted
/// from 1, must be representable).
pub open spec fn lines_printable(vs: Seq<ViolationView>) -> bool {
    forall|i: int| 0 <= i < vs.len() ==> #[trigger] vs[i].evidence.line != Some(usize::MAX)
}

/// Appends each string of `ss` between `prefix` and `suffix`.
fn push_items(out: &mut String, ss: &Vec<String>, prefix: &str, suffix: &str)
    ensures
        final(out)@ == old(out)@ + items_text(strings_view(ss@), prefix@, suffix@),
{
    let mut i: usize = 0;
    while i < ss.len()
        invariant
            i <= ss@.len(),
            out@ == old(out)@ + items_text(strings_view(ss@).take(i as int), prefix@, suffix@),
        decreases ss@.len() - i,
    {
        out.append(prefix);
        out.append(ss[i].as_str());
        out.append(suffix);
        assert(strings_view(ss@).take(i + 1).drop_last() =~= strings_view(ss@).take(i as int));
        assert(strings_view(ss@).take(i + 1).last() == ss@[i as int]@);
        assert(out@ =~= old(out)@ + items_text(strings_view(ss@).take(i + 1), prefix@, suffix@));
        i = i + 1;
    }
    assert(strings_view(ss@).take(ss@.len() as int) =~= strings_view(ss@));
}

/// Each item between `prefix` and `suffix`.
pub open spec fn items_text(ss: Seq<Seq<char>>, prefix: Seq<char>, suffix: Seq<char>) -> Seq<char>
    decreases ss.len(),
{
    if ss.len() == 0 {
        Seq::empty()
    } else {
        items_text(ss.drop_last(), prefix, suffix) + prefix + ss.last() + suffix
    }
}

/// `snippets_text` and `suggestions_text` are lists of items.
proof fn lemma_items(ss: Seq<Seq<char>>)
    ensures
        snippets_text(ss) == items_text(ss, "  - 「"@, "」\n"@),
        suggestions_text(ss) == items_text(ss, "  → "@, "\n"@),
    decreases ss.len(),
{
    if ss.len() > 0 {
        lemma_items(ss.drop_last());
    }
}

/// The header of a violation's section.
pub open spec fn violation_head(n: nat, v: ViolationView) -> Seq<char> {
    "[違反 "@ + decimal(n) + "] 制約"@ + decimal(v.constraint_id as nat) + ": "@ + v.title + "\n"@
        + "重大度: "@ + severity_text(v.severity) + "\n"@ + "検出箇所:\n"@
}

/// Appends the line and context of a violation.
fn push_location(out: &mut String, v: &Violation)
    requires
        v.evidence.line != Some(usize::MAX),
    ensures
        final(out)@ == old(out)@ + line_text(v@.evidence.line) + context_text(v@.evidence.context),
{
    let ghost o2 = out@;
    if let Some(line) = v.evidence.line {
        out.append("行番号: ");
        push_decimal(out, (line + 1) as u64);
        out.append("\n");
    }
    assert(out@ =~= o2 + line_text(v@.evidence.line));
    let ghost o3 = out@;
    if let Some(context) = &v.evidence.context {
        out.append("コンテキスト: ");
        out.append(context.as_str());
        out.append("\n");
    }
    assert(out@ =~= o3 + context_text(v@.evidence.context));
}

/// Appends the section of violation number `n`.
fn push_violation(out: &mut String, n: usize, v: &Violation)
    requires
        v.evidence.line != Some(usize::MAX),
    ensures
        final(out)@ == old(out)@ + violation_text(n as nat, v@),
{
    let ghost o = out@;
    out.append("[違反 ");
    push_decimal(out, n as u64);
    out.append("] 制約");
    push_decimal(out, v.constraint_id.0 as u64);
    out.append(": ");
    out.append(v.title.as_str());
    out.append("\n");
    out.append("重大度: ");
    out.append(v.severity.as_str());
    out.append("\n");
    out.append("検出箇所:\n");
    assert(out@ =~= o + violation_head(n as nat, v@));
    let ghost o1 = out@;
    push_items(out, &v.evidence.snippets, "  - 「", "」\n");
    let ghost o2 = out@;
    push_location(out, v);
    let ghost o4 = out@;
    out.append("修正提案:\n");
    push_items(out, &v.suggestions, "  → ", "\n");
    out.append("\n");
    proof {
        lemma_items(v@.evidence.snippets);
        lemma_items(v@.suggestions);
    }
    assert(out@ =~= o + violation_text(n as nat, v@));
}

impl Report {
    /// A report of `violations`, of the current version.
    pub fn new(violations: Vec<Violation>) -> (r: Self)
        ensures
            r.version@ == REPORT_VERSION@,
            r.violations == violations,
    {
        Self { version: owned(REPORT_VERSION), violations }
    }

    /// Whether there is a violation.
    pub fn has_violations(&self) -> (r: bool)
        ensures
            r == (self.violations@.len() > 0),
    {
        self.violations.len() > 0
    }

    /// The number of violations.
    pub fn violation_count(&self) -> (r: usize)
        ensures
            r == self.violations@.len(),
    {
        self.violations.len()
    }

    /// The report written for people.
    pub fn to_human_readable(&self) -> (r: String)
        requires
            lines_printable(self@.violations),
        ensures
            r@ == human_readable(self@.violations),
    {
        let mut output = String::new();
        if self.violations.len() == 0 {
            output.append("✓ 違反は検出されませんでした。\n");
            return output;
        }
        let ghost vs = self@.violations;
        output.append("⚠ ");
        push_decimal(&mut output, self.violations.len() as u64);
        output.append(" 件の違反が検出されました\n");
        output.append("========================================\n\n");
        let ghost head = output@;
        let mut i: usize = 0;
        while i < self.violations.len()
            invariant
                i <= vs.len(),
                vs == self@.violations,
                lines_printable(vs),
                output@ == head + violations_text(vs.take(i as int)),
            decreases vs.len() - i,
        {
            let v = &self.violations[i];
            assert(vs[i as int] == v@);
            let ghost before = output@;
            assert(vs[i as int].evidence.line != Some(usize::MAX));
            push_violation(&mut output, i + 1, v);
            assert(vs.take(i + 1).drop_last() =~= vs.take(i as int));
            assert(vs.take(i + 1).last() == v@);
            i = i + 1;
        }
        assert(vs.take(vs.len() as int) =~= vs);
        output
    }
}

impl Default for Report {
    /// An empty report.
    fn default() -> (r: Self)
        ensures
            r.version@ == REPORT_VERSION@,
            r.violations@.len() == 0,
    {
        Self::new(Vec::new())
    }
}

} // verus!
