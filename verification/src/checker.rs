//! The checker: all seven rules over a document, violations ordered by line.
use vstd::prelude::*;
use crate::block::block_patterns_compile;
use crate::document::{Document, DocumentView, blocks_of, parse};
use crate::error::IntegrityError;
use crate::pattern::all_compile;
use crate::report::{REPORT_VERSION, Report, Violation, ViolationView, violations_view};
use crate::rule::{Rule, lexical_check};
use crate::rules::{
    FactOpinionMixRule, HardToCancelRule, HiddenDisadvantageRule, PreselectRule,
    UngroundedComparisonRule, UrgencyScarcityRule, VisualBiasRule,
};
use crate::rules::c1_preselect::preselect_sources;
use crate::rules::c2_visual_bias::visual_bias_sources;
use crate::rules::c3_hard_to_cancel::hard_to_cancel_sources;
use crate::rules::c4_hidden_disadvantage::hidden_disadvantage_sources;
use crate::rules::c5_fact_opinion_mix::{fact_opinion_check, fact_sources, opinion_sources};
use crate::rules::c6_ungrounded_comparison::{claim_sources, evidence_sources, ungrounded_check};
use crate::rules::c7_urgency_scarcity::{
    justification_sources, urgency_scarcity_check, urgency_sources,
};
use crate::sorting::{insert_pos, lemma_insert_by_splice, lemma_sort_by, ordered_by, sort_by};

verus! {

/// Every rule's patterns compile.
pub open spec fn rules_compile() -> bool {
    &&& all_compile(preselect_sources())
    &&& all_compile(visual_bias_sources())
    &&& all_compile(hard_to_cancel_sources())
    &&& all_compile(hidden_disadvantage_sources())
    &&& all_compile(fact_sources())
    &&& all_compile(opinion_sources())
    &&& all_compile(claim_sources())
    &&& all_compile(evidence_sources())
    &&& all_compile(urgency_sources())
    &&& all_compile(justification_sources())
}

/// The violations of all rules, rule by rule (constraints 1 to 7).
pub open spec fn all_rule_violations(doc: DocumentView) -> Seq<ViolationView> {
    lexical_check(1, doc.blocks, preselect_sources()) + lexical_check(
        2,
        doc.blocks,
        visual_bias_sources(),
    ) + lexical_check(3, doc.blocks, hard_to_cancel_sources()) + lexical_check(
        4,
        doc.blocks,
        hidden_disadvantage_sources(),
    ) + fact_opinion_check(doc.blocks) + ungrounded_check(doc.blocks) + urgency_scarcity_check(
        doc.blocks,
    )
}

/// The order of violations: by line; one without a line last.
pub open spec fn line_key(v: ViolationView) -> int {
    match v.evidence.line {
        Some(l) => l as int,
        None => usize::MAX as int,
    }
}

/// `line_key` as a function value.
pub open spec fn line_key_fn() -> spec_fn(ViolationView) -> int {
    |v: ViolationView| line_key(v)
}

/// The violations a check of `doc` reports.
pub open spec fn checked_violations(doc: DocumentView) -> Seq<ViolationView> {
    sort_by(all_rule_violations(doc), line_key_fn())
}

/// The checker with every rule.
pub struct ConstraintChecker {
    preselect: PreselectRule,
    visual_bias: VisualBiasRule,
    hard_to_cancel: HardToCancelRule,
    hidden_disadvantage: HiddenDisadvantageRule,
    fact_opinion_mix: FactOpinionMixRule,
    ungrounded_comparison: UngroundedComparisonRule,
    urgency_scarcity: UrgencyScarcityRule,
}

/// The line of a violation, or the largest line when it has none.
fn line_of(v: &Violation) -> (r: usize)
    ensures
        r == line_key(v@),
{
    match v.evidence.line {
        Some(l) => l,
        None => usize::MAX,
    }
}

/// Orders violations stably by line.
fn sort_by_line(v: Vec<Violation>) -> (r: Vec<Violation>)
    ensures
        violations_view(r@) == sort_by(violations_view(v@), line_key_fn()),
{
    let ghost orig = violations_view(v@);
    let mut rest = v;
    let mut out: Vec<Violation> = Vec::new();
    let ghost mut n: int = 0;
    assert(orig.take(0) =~= Seq::<ViolationView>::empty());
    assert(violations_view(out@) =~= Seq::<ViolationView>::empty());
    assert(orig.skip(0) =~= orig);
    while rest.len() > 0
        invariant
            0 <= n <= orig.len(),
            violations_view(rest@) == orig.skip(n),
            violations_view(out@) == sort_by(orig.take(n), line_key_fn()),
        decreases rest@.len(),
    {
        let ghost rest_before = rest@;
        let x = rest.remove(0);
        assert(rest@ =~= rest_before.subrange(1, rest_before.len() as int));
        assert(violations_view(rest@) =~= violations_view(rest_before).subrange(
            1,
            rest_before.len() as int,
        ));
        assert(orig.skip(n).subrange(1, orig.skip(n).len() as int) =~= orig.skip(n + 1));
        assert(x == rest_before[0]);
        assert(violations_view(rest_before)[0] == rest_before[0]@);
        assert(x@ == orig[n]) by {
            assert(violations_view(rest_before)[0] == orig.skip(n)[0]);
        }
        let ghost sorted = violations_view(out@);
        proof {
            lemma_insert_by_splice(sorted, x@, line_key_fn());
        }
        let xl = line_of(&x);
        let mut p: usize = 0;
        assert(sorted.skip(0) =~= sorted);
        while p < out.len() && !(xl < line_of(&out[p]))
            invariant
                p <= out@.len(),
                sorted == violations_view(out@),
                xl == line_key(x@),
                insert_pos(sorted, x@, line_key_fn()) == p + insert_pos(
                    sorted.skip(p as int),
                    x@,
                    line_key_fn(),
                ),
            decreases out@.len() - p,
        {
            assert(sorted.skip(p as int)[0] == out@[p as int]@);
            assert(sorted.skip(p as int).drop_first() =~= sorted.skip(p + 1));
            p = p + 1;
        }
        if p < out.len() {
            assert(sorted.skip(p as int)[0] == out@[p as int]@);
        }
        assert(p == insert_pos(sorted, x@, line_key_fn()));
        out.insert(p, x);
        assert(violations_view(out@) =~= sorted.take(p as int).push(x@) + sorted.skip(p as int));
        assert(orig.take(n + 1).drop_last() =~= orig.take(n));
        assert(orig.take(n + 1).last() == orig[n]);
        proof {
            n = n + 1;
        }
    }
    assert(orig.take(n) =~= orig) by {
        assert(orig.skip(n).len() == 0);
    }
    out
}

/// Appends `more` to `all`.
fn append_all(all: &mut Vec<Violation>, more: Vec<Violation>)
    ensures
        violations_view(final(all)@) == violations_view(old(all)@) + violations_view(more@),
{
    let mut more = more;
    let ghost a = violations_view(all@);
    let ghost m = violations_view(more@);
    all.append(&mut more);
    assert(violations_view(all@) =~= a + m);
}

impl ConstraintChecker {
    /// The checker; fails exactly when a rule's pattern does not compile.
    pub fn new() -> (r: Result<Self, IntegrityError>)
        ensures
            r is Ok <==> rules_compile(),
    {
        let preselect = PreselectRule::new()?;
        let visual_bias = VisualBiasRule::new()?;
        let hard_to_cancel = HardToCancelRule::new()?;
        let hidden_disadvantage = HiddenDisadvantageRule::new()?;
        let fact_opinion_mix = FactOpinionMixRule::new()?;
        let ungrounded_comparison = UngroundedComparisonRule::new()?;
        let urgency_scarcity = UrgencyScarcityRule::new()?;
        Ok(
            Self {
                preselect,
                visual_bias,
                hard_to_cancel,
                hidden_disadvantage,
                fact_opinion_mix,
                ungrounded_comparison,
                urgency_scarcity,
            },
        )
    }

    /// Checks `doc` with every rule and reports the violations ordered by
    /// line (a violation without a line last), keeping the rules' order among
    /// violations at the same line.
    pub fn check(&self, doc: &Document) -> (r: Report)
        ensures
            r@.version == REPORT_VERSION@,
            r@.violations == checked_violations(doc@),
    {
        let mut violations: Vec<Violation> = Vec::new();
        assert(violations_view(violations@) =~= Seq::<ViolationView>::empty());
        append_all(&mut violations, self.preselect.check(doc));
        append_all(&mut violations, self.visual_bias.check(doc));
        append_all(&mut violations, self.hard_to_cancel.check(doc));
        append_all(&mut violations, self.hidden_disadvantage.check(doc));
        append_all(&mut violations, self.fact_opinion_mix.check(doc));
        append_all(&mut violations, self.ungrounded_comparison.check(doc));
        append_all(&mut violations, self.urgency_scarcity.check(doc));
        assert(violations_view(violations@) =~= all_rule_violations(doc@));
        Report::new(sort_by_line(violations))
    }
}

/// Checks a parsed document with every rule; fails exactly when a rule's
/// pattern does not compile.
pub fn check_document(doc: &Document) -> (r: Result<Report, IntegrityError>)
    ensures
        r is Ok <==> rules_compile(),
        r matches Ok(rep) ==> rep@.version == REPORT_VERSION@ && rep@.violations
            == checked_violations(doc@),
{
    let checker = ConstraintChecker::new()?;
    Ok(checker.check(doc))
}

/// Parses and checks a text; fails exactly when a pattern does not compile.
pub fn check_text(input: &str) -> (r: Result<Report, IntegrityError>)
    ensures
        r is Ok <==> block_patterns_compile() && rules_compile(),
        r matches Ok(rep) ==> rep@.version == REPORT_VERSION@ && rep@.violations
            == checked_violations(DocumentView { raw_text: input@, blocks: blocks_of(input@) }),
{
    let doc = parse(input)?;
    check_document(&doc)
}

} // verus!

verus! {

/// A violation as every rule reports it: a hard fail of one of the seven
/// constraints, titled after it, with its remedy as the only suggestion.
pub open spec fn reported_as_hard_fail(v: ViolationView) -> bool {
    &&& v.severity == crate::constraint::Severity::HardFail
    &&& 1 <= v.constraint_id <= 7
    &&& v.title == crate::constraint::title_of(v.constraint_id)
    &&& v.suggestions == seq![crate::constraint::suggestion_of(v.constraint_id)]
}

/// Every element of `s` is reported as a hard fail.
pub open spec fn all_hard_fail(s: Seq<ViolationView>) -> bool {
    forall|i: int| 0 <= i < s.len() ==> reported_as_hard_fail(#[trigger] s[i])
}

proof fn lemma_concat_hard_fail(a: Seq<ViolationView>, b: Seq<ViolationView>)
    requires
        all_hard_fail(a),
        all_hard_fail(b),
    ensures
        all_hard_fail(a + b),
{
    assert forall|i: int| 0 <= i < (a + b).len() implies reported_as_hard_fail(#[trigger] (a + b)[i]) by {
        if i < a.len() {
            assert((a + b)[i] == a[i]);
        } else {
            assert((a + b)[i] == b[i - a.len()]);
        }
    }
}

proof fn lemma_fact_opinion_hard_fail(bs: Seq<crate::block::BlockView>)
    ensures
        all_hard_fail(fact_opinion_check(bs)),
    decreases bs.len(),
{
    if bs.len() > 0 {
        lemma_fact_opinion_hard_fail(bs.drop_last());
        lemma_concat_hard_fail(
            fact_opinion_check(bs.drop_last()),
            crate::rules::c5_fact_opinion_mix::fact_opinion_for(bs.last()),
        );
    }
}

proof fn lemma_ungrounded_hard_fail(bs: Seq<crate::block::BlockView>)
    ensures
        all_hard_fail(ungrounded_check(bs)),
    decreases bs.len(),
{
    if bs.len() > 0 {
        lemma_ungrounded_hard_fail(bs.drop_last());
        lemma_concat_hard_fail(
            ungrounded_check(bs.drop_last()),
            crate::rules::c6_ungrounded_comparison::ungrounded_for(bs.last()),
        );
    }
}

proof fn lemma_urgency_hard_fail(bs: Seq<crate::block::BlockView>)
    ensures
        all_hard_fail(urgency_scarcity_check(bs)),
    decreases bs.len(),
{
    if bs.len() > 0 {
        lemma_urgency_hard_fail(bs.drop_last());
        lemma_concat_hard_fail(
            urgency_scarcity_check(bs.drop_last()),
            crate::rules::c7_urgency_scarcity::urgency_scarcity_for(bs.last()),
        );
    }
}

/// Every violation a check reports is a hard fail of one of the seven
/// constraints, titled after it, with the constraint's remedy as its only
/// suggestion: there are no warnings and no exceptions.
pub proof fn law_every_violation_is_hard_fail(doc: DocumentView)
    ensures
        all_hard_fail(checked_violations(doc)),
{
    let bs = doc.blocks;
    lemma_fact_opinion_hard_fail(bs);
    lemma_ungrounded_hard_fail(bs);
    lemma_urgency_hard_fail(bs);
    let l1 = lexical_check(1, bs, preselect_sources());
    let l2 = lexical_check(2, bs, visual_bias_sources());
    let l3 = lexical_check(3, bs, hard_to_cancel_sources());
    let l4 = lexical_check(4, bs, hidden_disadvantage_sources());
    assert(all_hard_fail(l1) && all_hard_fail(l2) && all_hard_fail(l3) && all_hard_fail(l4));
    lemma_concat_hard_fail(l1, l2);
    lemma_concat_hard_fail(l1 + l2, l3);
    lemma_concat_hard_fail(l1 + l2 + l3, l4);
    lemma_concat_hard_fail(l1 + l2 + l3 + l4, fact_opinion_check(bs));
    lemma_concat_hard_fail(l1 + l2 + l3 + l4 + fact_opinion_check(bs), ungrounded_check(bs));
    lemma_concat_hard_fail(
        l1 + l2 + l3 + l4 + fact_opinion_check(bs) + ungrounded_check(bs),
        urgency_scarcity_check(bs),
    );
    let all = all_rule_violations(doc);
    assert(all_hard_fail(all));
    let sorted = checked_violations(doc);
    lemma_sort_by(all, line_key_fn());
    assert forall|i: int| 0 <= i < sorted.len() implies reported_as_hard_fail(#[trigger] sorted[i]) by {
        let x = sorted[i];
        sorted.to_multiset_ensures();
        all.to_multiset_ensures();
        assert(sorted.contains(x));
        assert(sorted.to_multiset().count(x) > 0);
        assert(all.to_multiset().count(x) > 0);
        assert(all.contains(x));
        let j = choose|j: int| 0 <= j < all.len() && all[j] == x;
        assert(reported_as_hard_fail(all[j]));
    }
}

/// A check reports its violations in line order, a violation without a line
/// last, and reports each violation the rules found exactly once.
pub proof fn law_check_in_line_order(doc: DocumentView)
    ensures
        ordered_by(checked_violations(doc), line_key_fn()),
        checked_violations(doc).to_multiset() == all_rule_violations(doc).to_multiset(),
{
    lemma_sort_by(all_rule_violations(doc), line_key_fn());
}

} // verus!
