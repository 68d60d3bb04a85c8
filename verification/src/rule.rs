//! What the rules share: matches, the rule interface, and turning matches
//! into violations.
use vstd::prelude::*;
use crate::block::{Block, BlockView};
use crate::constraint::{ConstraintId, Severity, suggestion_of, title_of};
use crate::document::{Document, DocumentView};
use crate::pattern::{Pattern, regex_find_all, sources, texts};
use crate::text::contains;
use crate::report::{Evidence, EvidenceView, Violation, ViolationView, strings_view, violations_view};

verus! {

/// One match of a rule.
#[derive(Debug, Clone)]
pub struct RuleMatch {
    /// The matched text.
    pub matched: String,
    /// The line of the block it was found in (counting from 0).
    pub line: usize,
    /// The text of that block.
    pub context: Option<String>,
}

/// Mathematical model of a `RuleMatch`.
pub struct RuleMatchView {
    pub matched: Seq<char>,
    pub line: usize,
    pub context: Option<Seq<char>>,
}

impl View for RuleMatch {
    type V = RuleMatchView;

    open spec fn view(&self) -> RuleMatchView {
        RuleMatchView {
            matched: self.matched@,
            line: self.line,
            context: crate::model::opt_view(self.context),
        }
    }
}

/// The models of a sequence of matches.
pub open spec fn match_views(ms: Seq<RuleMatch>) -> Seq<RuleMatchView> {
    ms.map_values(|m: RuleMatch| m@)
}

/// A rule: checks a document against one constraint.
pub trait Rule: Send + Sync {
    /// The constraint the rule checks.
    spec fn spec_constraint(&self) -> u8;

    /// The violations the rule finds in `doc`.
    spec fn spec_check(&self, doc: DocumentView) -> Seq<ViolationView>;

    /// The constraint the rule checks.
    fn constraint_id(&self) -> (r: ConstraintId)
        ensures
            r.0 == self.spec_constraint(),
    ;

    /// The violations found in `doc`.
    fn check(&self, doc: &Document) -> (r: Vec<Violation>)
        ensures
            violations_view(r@) == self.spec_check(doc@),
    ;
}

/// A hard-fail violation of constraint `id` with evidence `ev` and the
/// constraint's own remedy.
pub open spec fn default_violation(id: u8, ev: EvidenceView) -> ViolationView {
    ViolationView {
        constraint_id: id,
        title: title_of(id),
        severity: Severity::HardFail,
        evidence: ev,
        suggestions: seq![suggestion_of(id)],
    }
}

/// The matched texts.
pub open spec fn matched_texts(ms: Seq<RuleMatchView>) -> Seq<Seq<char>> {
    ms.map_values(|m: RuleMatchView| m.matched)
}

/// The violation that matches give: none for no match; otherwise one whose
/// snippets are all matched texts, at the line and with the context of the
/// first match.
pub open spec fn violation_from_matches(id: u8, ms: Seq<RuleMatchView>) -> Option<ViolationView> {
    if ms.len() == 0 {
        None
    } else {
        Some(
            default_violation(
                id,
                EvidenceView {
                    snippets: matched_texts(ms),
                    line: Some(ms[0].line),
                    context: ms[0].context,
                },
            ),
        )
    }
}

/// The model of an optional violation.
pub open spec fn opt_violation(o: Option<Violation>) -> Option<ViolationView> {
    match o {
        Some(v) => Some(v@),
        None => None,
    }
}

/// A copy of an optional string.
fn clone_opt(o: &Option<String>) -> (r: Option<String>)
    ensures
        crate::model::opt_view(r) == crate::model::opt_view(*o),
{
    match o {
        Some(s) => Some(s.clone()),
        None => None,
    }
}

/// The violation that `matches` give (see `violation_from_matches`).
pub fn create_violation_from_matches(constraint_id: ConstraintId, matches: Vec<RuleMatch>) -> (r:
    Option<Violation>)
    ensures
        opt_violation(r) == violation_from_matches(constraint_id.0, match_views(matches@)),
{
    if matches.len() == 0 {
        return None;
    }
    let mut snippets: Vec<String> = Vec::new();
    let mut i: usize = 0;
    while i < matches.len()
        invariant
            i <= matches@.len(),
            strings_view(snippets@) == matched_texts(match_views(matches@)).take(i as int),
        decreases matches@.len() - i,
    {
        let ghost before = strings_view(snippets@);
        snippets.push(matches[i].matched.clone());
        assert(strings_view(snippets@) =~= before.push(matches@[i as int].matched@));
        assert(matched_texts(match_views(matches@)).take(i + 1) =~= matched_texts(
            match_views(matches@),
        ).take(i as int).push(matches@[i as int].matched@));
        i = i + 1;
    }
    assert(matched_texts(match_views(matches@)).take(matches@.len() as int) =~= matched_texts(
        match_views(matches@),
    ));
    let evidence = Evidence::new(snippets).with_line(matches[0].line).with_context_opt(
        clone_opt(&matches[0].context),
    );
    let v = Violation::with_default_suggestion(constraint_id, evidence);
    assert(v@.evidence == EvidenceView {
        snippets: matched_texts(match_views(matches@)),
        line: Some(match_views(matches@)[0].line),
        context: match_views(matches@)[0].context,
    });
    assert(v@.suggestions =~= seq![suggestion_of(constraint_id.0)]);
    Some(v)
}

// ---------------------------------------------------------------------------
// Matching pattern lists against blocks
// ---------------------------------------------------------------------------

/// The texts matched in `text` by the patterns `ps`, pattern by pattern.
pub open spec fn texts_matching(text: Seq<char>, ps: Seq<Seq<char>>) -> Seq<Seq<char>>
    decreases ps.len(),
{
    if ps.len() == 0 {
        Seq::empty()
    } else {
        texts_matching(text, ps.drop_last()) + regex_find_all(ps.last(), text)
    }
}

/// Some pattern of `ps` matches in `text`.
pub open spec fn any_pattern_matches(text: Seq<char>, ps: Seq<Seq<char>>) -> bool {
    exists|i: int| 0 <= i < ps.len() && #[trigger] regex_find_all(ps[i], text).len() > 0
}

/// Matched texts as matches in block `b`.
pub open spec fn as_rule_matches(ms: Seq<Seq<char>>, b: BlockView) -> Seq<RuleMatchView>
    decreases ms.len(),
{
    if ms.len() == 0 {
        Seq::empty()
    } else {
        as_rule_matches(ms.drop_last(), b).push(
            RuleMatchView { matched: ms.last(), line: b.line_number, context: Some(b.text) },
        )
    }
}

/// All matches of `ps` in the blocks `bs`, block by block.
pub open spec fn doc_matches(bs: Seq<BlockView>, ps: Seq<Seq<char>>) -> Seq<RuleMatchView>
    decreases bs.len(),
{
    if bs.len() == 0 {
        Seq::empty()
    } else {
        doc_matches(bs.drop_last(), ps) + as_rule_matches(
            texts_matching(bs.last().text, ps),
            bs.last(),
        )
    }
}

/// The violations (at most one) of a rule that reports every match of its
/// patterns in the document.
pub open spec fn lexical_check(id: u8, bs: Seq<BlockView>, ps: Seq<Seq<char>>) -> Seq<ViolationView> {
    match violation_from_matches(id, doc_matches(bs, ps)) {
        Some(v) => seq![v],
        None => Seq::empty(),
    }
}

/// A hard-fail violation of `id` in block `b` with the given snippets.
pub open spec fn block_violation(id: u8, snippets: Seq<Seq<char>>, b: BlockView) -> ViolationView {
    default_violation(
        id,
        EvidenceView { snippets: snippets, line: Some(b.line_number), context: Some(b.text) },
    )
}

/// Each of `snippets` occurs in `text`.
pub open spec fn all_within(snippets: Seq<Seq<char>>, text: Seq<char>) -> bool {
    forall|k: int| 0 <= k < snippets.len() ==> contains(text, #[trigger] snippets[k])
}

/// The violation shows where it was found: each snippet occurs in its context.
pub open spec fn snippets_in_context(v: ViolationView) -> bool {
    v.evidence.context matches Some(c) && all_within(v.evidence.snippets, c)
}

/// Every violation of `vs` shows where it was found.
pub open spec fn all_snippets_in_context(vs: Seq<ViolationView>) -> bool {
    forall|i: int| 0 <= i < vs.len() ==> snippets_in_context(#[trigger] vs[i])
}

/// The texts matched in `text` by `patterns`.
pub fn find_in(text: &str, patterns: &Vec<Pattern>) -> (r: Vec<String>)
    ensures
        texts(r@) == texts_matching(text@, sources(patterns@)),
        all_within(texts(r@), text@),
{
    let mut r: Vec<String> = Vec::new();
    let mut i: usize = 0;
    while i < patterns.len()
        invariant
            i <= patterns@.len(),
            texts(r@) == texts_matching(text@, sources(patterns@).take(i as int)),
            all_within(texts(r@), text@),
        decreases patterns@.len() - i,
    {
        let found = patterns[i].find_all(text);
        let ghost before = texts(r@);
        let mut j: usize = 0;
        while j < found.len()
            invariant
                j <= found@.len(),
                texts(r@) == before + texts(found@).take(j as int),
                all_within(texts(r@), text@),
                forall|k: int| 0 <= k < found@.len() ==> contains(text@, #[trigger] found@[k]@),
            decreases found@.len() - j,
        {
            let ghost before_j = texts(r@);
            r.push(found[j].clone());
            assert(texts(r@) =~= before_j.push(found@[j as int]@));
            assert(texts(found@).take(j + 1) =~= texts(found@).take(j as int).push(found@[j as int]@));
            assert(texts(r@) =~= before + texts(found@).take(j + 1));
            j = j + 1;
        }
        assert(texts(found@).take(found@.len() as int) =~= texts(found@));
        assert(sources(patterns@).take(i + 1).drop_last() =~= sources(patterns@).take(i as int));
        assert(sources(patterns@).take(i + 1).last() == patterns@[i as int]@);
        i = i + 1;
    }
    assert(sources(patterns@).take(patterns@.len() as int) =~= sources(patterns@));
    r
}

/// Whether some pattern of `patterns` matches in `text`.
pub fn any_match(text: &str, patterns: &Vec<Pattern>) -> (r: bool)
    ensures
        r == any_pattern_matches(text@, sources(patterns@)),
{
    let mut i: usize = 0;
    while i < patterns.len()
        invariant
            i <= patterns@.len(),
            forall|j: int| 0 <= j < i ==> #[trigger] regex_find_all(sources(patterns@)[j], text@).len() == 0,
        decreases patterns@.len() - i,
    {
        assert(sources(patterns@)[i as int] == patterns@[i as int]@);
        if patterns[i].is_match(text) {
            return true;
        }
        i = i + 1;
    }
    false
}

/// All matches of `patterns` in the blocks of `doc`.
pub fn collect_matches(doc: &Document, patterns: &Vec<Pattern>) -> (r: Vec<RuleMatch>)
    ensures
        match_views(r@) == doc_matches(doc@.blocks, sources(patterns@)),
{
    let ghost bs = doc@.blocks;
    let ghost ps = sources(patterns@);
    let mut r: Vec<RuleMatch> = Vec::new();
    let mut i: usize = 0;
    while i < doc.blocks.len()
        invariant
            i <= bs.len(),
            bs == doc@.blocks,
            ps == sources(patterns@),
            match_views(r@) == doc_matches(bs.take(i as int), ps),
        decreases bs.len() - i,
    {
        let block = &doc.blocks[i];
        assert(bs[i as int] == block@);
        let found = find_in(block.text.as_str(), patterns);
        let ghost before = match_views(r@);
        let mut j: usize = 0;
        while j < found.len()
            invariant
                j <= found@.len(),
                i < bs.len(),
                bs[i as int] == block@,
                match_views(r@) == before + as_rule_matches(texts(found@).take(j as int), block@),
            decreases found@.len() - j,
        {
            let ghost before_j = match_views(r@);
            r.push(
                RuleMatch {
                    matched: found[j].clone(),
                    line: block.line_number,
                    context: Some(block.text.clone()),
                },
            );
            assert(match_views(r@) =~= before_j.push(
                RuleMatchView { matched: found@[j as int]@, line: block.line_number, context: Some(block.text@) },
            ));
            assert(texts(found@).take(j + 1).drop_last() =~= texts(found@).take(j as int));
            assert(texts(found@).take(j + 1).last() == found@[j as int]@);
            assert(match_views(r@) =~= before + as_rule_matches(texts(found@).take(j + 1), block@));
            j = j + 1;
        }
        assert(texts(found@).take(found@.len() as int) =~= texts(found@));
        assert(bs.take(i + 1).drop_last() =~= bs.take(i as int));
        assert(bs.take(i + 1).last() == block@);
        i = i + 1;
    }
    assert(bs.take(bs.len() as int) =~= bs);
    r
}

/// The violation of constraint `id` in block `block` with `snippets`.
pub fn violation_in_block(id: ConstraintId, snippets: Vec<String>, block: &Block) -> (r: Violation)
    ensures
        r@ == block_violation(id.0, strings_view(snippets@), block@),
{
    let evidence = Evidence::new(snippets).with_line(block.line_number).with_context(
        block.text.clone(),
    );
    let v = Violation::with_default_suggestion(id, evidence);
    assert(v@.suggestions =~= seq![suggestion_of(id.0)]);
    v
}

/// Whether some pattern matches is decided by every pattern of the list,
/// the first one included: a match of pattern `i` makes it true, and it is
/// false only when no pattern matches.
pub proof fn law_any_pattern_by_each(text: Seq<char>, ps: Seq<Seq<char>>, i: int)
    requires
        0 <= i < ps.len(),
    ensures
        regex_find_all(ps[i], text).len() > 0 ==> any_pattern_matches(text, ps),
        !any_pattern_matches(text, ps) ==> regex_find_all(ps[i], text).len() == 0,
{
}

} // verus!
