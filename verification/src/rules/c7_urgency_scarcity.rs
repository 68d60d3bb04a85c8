//! 制約⑦ 根拠のない急がせ・希少性の禁止：実際の期限・在庫に基づかない緊急性・希少性の演出を検出する。
use vstd::prelude::*;
use crate::constraint::ConstraintId;
use crate::document::{Document, DocumentView};
use crate::error::IntegrityError;
use crate::text::lit_views;
use crate::pattern::{Pattern, all_compile, compile_all, regex_find_all, sources, texts};
use crate::report::{Violation, ViolationView, strings_view, violations_view};
use crate::rule::{Rule, all_snippets_in_context, all_within, any_match, any_pattern_matches, block_violation, find_in, texts_matching, violation_in_block};

verus! {

/// The patterns of urgency or scarcity claims.
pub open spec fn urgency_sources() -> Seq<Seq<char>> {
    lit_views(seq![r"(?i)今だけ", r"(?i)残りわずか", r"(?i)あと\d+[分時間日]", r"(?i)限定", r"(?i)本日限り", r"(?i)先着\d*名", r"(?i)在庫僅少", r"(?i)売り切れ間近", r"(?i)お急ぎ", r"(?i)今すぐ", r"(?i)期間限定", r"(?i)数量限定", r"(?i)早い者勝ち"])
}

/// The patterns of a deadline or stock basis.
pub open spec fn justification_sources() -> Seq<Seq<char>> {
    lit_views(seq![r"\d+月\d+日", r"\d+:\d+", r"(?i)在庫(残り)?\d+", r"(?i)残り\d+個", r"(?i)更新", r"(?i)\d+時(まで|迄)", r"(?i)〜\d+日", r"(?i)期限.*\d"])
}

/// Constraint 7 for one block: urgency or scarcity claims without a deadline or stock basis; the
/// snippets are the claims.
pub open spec fn urgency_scarcity_for(b: crate::block::BlockView) -> Seq<ViolationView> {
    let claims = texts_matching(b.text, urgency_sources());
    if claims.len() > 0 && !any_pattern_matches(b.text, justification_sources()) {
        seq![block_violation(7, claims, b)]
    } else {
        Seq::empty()
    }
}

/// Constraint 7, block by block.
pub open spec fn urgency_scarcity_check(bs: Seq<crate::block::BlockView>) -> Seq<ViolationView>
    decreases bs.len(),
{
    if bs.len() == 0 {
        Seq::empty()
    } else {
        urgency_scarcity_check(bs.drop_last()) + urgency_scarcity_for(bs.last())
    }
}

/// Reports each block with urgency or scarcity claimed and no basis.
pub struct UrgencyScarcityRule {
    urgency_patterns: Vec<Pattern>,
    justification_patterns: Vec<Pattern>,
}

impl UrgencyScarcityRule {
    /// The rule holds its own patterns.
    #[verifier::type_invariant]
    spec fn holds_patterns(&self) -> bool {
        &&& sources(self.urgency_patterns@) == urgency_sources()
        &&& sources(self.justification_patterns@) == justification_sources()
    }

    /// The rule; fails exactly when one of its patterns does not compile.
    pub fn new() -> (r: Result<Self, IntegrityError>)
        ensures
            r is Ok <==> all_compile(urgency_sources()) && all_compile(justification_sources()),
    {
        let urgency_patterns = compile_all(&[r"(?i)今だけ", r"(?i)残りわずか", r"(?i)あと\d+[分時間日]", r"(?i)限定", r"(?i)本日限り", r"(?i)先着\d*名", r"(?i)在庫僅少", r"(?i)売り切れ間近", r"(?i)お急ぎ", r"(?i)今すぐ", r"(?i)期間限定", r"(?i)数量限定", r"(?i)早い者勝ち"])?;
        let justification_patterns = compile_all(&[r"\d+月\d+日", r"\d+:\d+", r"(?i)在庫(残り)?\d+", r"(?i)残り\d+個", r"(?i)更新", r"(?i)\d+時(まで|迄)", r"(?i)〜\d+日", r"(?i)期限.*\d"])?;
        Ok(Self { urgency_patterns, justification_patterns })
    }

    /// The claims found in `text`.
    fn find_urgency_claims(&self, text: &str) -> (r: Vec<String>)
        ensures
            texts(r@) == texts_matching(text@, urgency_sources()),
            all_within(texts(r@), text@),
    {
        proof {
            use_type_invariant(self);
        }
        find_in(text, &self.urgency_patterns)
    }

    /// Whether `text` states a basis.
    fn has_justification(&self, text: &str) -> (r: bool)
        ensures
            r == any_pattern_matches(text@, justification_sources()),
    {
        proof {
            use_type_invariant(self);
        }
        any_match(text, &self.justification_patterns)
    }
}

impl Rule for UrgencyScarcityRule {
    open spec fn spec_constraint(&self) -> u8 {
        7
    }

    open spec fn spec_check(&self, doc: DocumentView) -> Seq<ViolationView> {
        urgency_scarcity_check(doc.blocks)
    }

    fn constraint_id(&self) -> (r: ConstraintId) {
        ConstraintId::urgency_scarcity()
    }

    /// Each violation's snippets occur in its context.
    fn check(&self, doc: &Document) -> (r: Vec<Violation>)
        ensures
            all_snippets_in_context(violations_view(r@)),
    {
        let ghost bs = doc@.blocks;
        let mut violations: Vec<Violation> = Vec::new();
        let mut i: usize = 0;
        while i < doc.blocks.len()
            invariant
                i <= bs.len(),
                bs == doc@.blocks,
                violations_view(violations@) == urgency_scarcity_check(bs.take(i as int)),
                all_snippets_in_context(violations_view(violations@)),
            decreases bs.len() - i,
        {
            let block = &doc.blocks[i];
            assert(bs[i as int] == block@);
            let claims = self.find_urgency_claims(block.text.as_str());
            let ghost before = violations_view(violations@);
            if claims.len() > 0 && !self.has_justification(block.text.as_str()) {
                assert(strings_view(claims@) == texts(claims@));
                let ghost vb = violations_view(violations@);
                let v = violation_in_block(self.constraint_id(), claims, block);
                violations.push(v);
                assert(violations_view(violations@) =~= vb.push(v@));
            }
            assert(violations_view(violations@) =~= before + urgency_scarcity_for(block@));
            assert(bs.take(i + 1).drop_last() =~= bs.take(i as int));
            assert(bs.take(i + 1).last() == block@);
            i = i + 1;
        }
        assert(bs.take(bs.len() as int) =~= bs);
        violations
    }
}


/// A block is reported for constraint 7 exactly when it makes a urgency or scarcity
/// claim and no pattern of the deadline or stock basis list matches its text: a match of any
/// pattern of that list, the first one included, clears the block; a block
/// with a claim and no such match gets one violation, at its line, with the
/// claims as snippets.
pub proof fn law_urgency_block(b: crate::block::BlockView)
    ensures
        (exists|i: int| 0 <= i < justification_sources().len() && #[trigger] regex_find_all(justification_sources()[i], b.text).len()
            > 0) ==> urgency_scarcity_for(b).len() == 0,
        texts_matching(b.text, urgency_sources()).len() == 0 ==> urgency_scarcity_for(b).len() == 0,
        texts_matching(b.text, urgency_sources()).len() > 0 && (forall|i: int| 0 <= i < justification_sources().len()
            ==> #[trigger] regex_find_all(justification_sources()[i], b.text).len() == 0) ==> {
            &&& urgency_scarcity_for(b).len() == 1
            &&& urgency_scarcity_for(b)[0].constraint_id == 7
            &&& urgency_scarcity_for(b)[0].evidence.line == Some(b.line_number)
            &&& urgency_scarcity_for(b)[0].evidence.snippets == texts_matching(b.text, urgency_sources())
        },
{
}

/// A text in which every block either makes no urgency or scarcity claim or has a match
/// of some pattern of the deadline or stock basis list (any of them, the first included)
/// gets no constraint-7 violation.
pub proof fn law_urgency_cleared(bs: Seq<crate::block::BlockView>)
    requires
        forall|k: int| 0 <= k < bs.len() ==> texts_matching(#[trigger] bs[k].text, urgency_sources()).len() == 0
            || exists|i: int| 0 <= i < justification_sources().len() && #[trigger] regex_find_all(justification_sources()[i], bs[k].text).len() > 0,
    ensures
        urgency_scarcity_check(bs).len() == 0,
    decreases bs.len(),
{
    if bs.len() > 0 {
        let d = bs.drop_last();
        assert forall|k: int| 0 <= k < d.len() implies texts_matching(#[trigger] d[k].text, urgency_sources()).len() == 0
            || exists|i: int| 0 <= i < justification_sources().len() && #[trigger] regex_find_all(justification_sources()[i], d[k].text).len() > 0 by {
            assert(d[k] == bs[k]);
        }
        law_urgency_cleared(d);
        assert(bs[bs.len() - 1] == bs.last());
        law_urgency_block(bs.last());
    }
}

} // verus!
