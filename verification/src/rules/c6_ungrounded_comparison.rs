//! 制約⑥ 根拠のない比較・優位性の禁止：調査期間・母数・出典を示さない優位性の主張を検出する。
use vstd::prelude::*;
use crate::constraint::ConstraintId;
use crate::document::{Document, DocumentView};
use crate::error::IntegrityError;
use crate::text::lit_views;
use crate::pattern::{Pattern, all_compile, compile_all, regex_find_all, sources, texts};
use crate::report::{Violation, ViolationView, strings_view, violations_view};
use crate::rule::{Rule, all_snippets_in_context, all_within, any_match, any_pattern_matches, block_violation, find_in, texts_matching, violation_in_block};

verus! {

/// The patterns of superiority claims.
pub open spec fn claim_sources() -> Seq<Seq<char>> {
    lit_views(seq![r"(?i)No\.?\s*1", r"(?i)ナンバーワン", r"(?i)業界一", r"(?i)最安", r"(?i)一番人気", r"(?i)トップクラス", r"(?i)業界最高", r"(?i)日本一", r"(?i)世界一", r"(?i)最大級", r"(?i)首位", r"(?i)シェアNo"])
}

/// The patterns of evidence.
pub open spec fn evidence_sources() -> Seq<Seq<char>> {
    lit_views(seq![r"調査", r"期間", r"(?i)n\s*=\s*\d+", r"母数", r"サンプル", r"出典", r"(?i)\d{4}年", r"調査会社", r"リサーチ"])
}

/// Constraint 6 for one block: superiority claims without evidence; the
/// snippets are the claims.
pub open spec fn ungrounded_for(b: crate::block::BlockView) -> Seq<ViolationView> {
    let claims = texts_matching(b.text, claim_sources());
    if claims.len() > 0 && !any_pattern_matches(b.text, evidence_sources()) {
        seq![block_violation(6, claims, b)]
    } else {
        Seq::empty()
    }
}

/// Constraint 6, block by block.
pub open spec fn ungrounded_check(bs: Seq<crate::block::BlockView>) -> Seq<ViolationView>
    decreases bs.len(),
{
    if bs.len() == 0 {
        Seq::empty()
    } else {
        ungrounded_check(bs.drop_last()) + ungrounded_for(bs.last())
    }
}

/// Reports each block with a superiority claim and no evidence.
pub struct UngroundedComparisonRule {
    claim_patterns: Vec<Pattern>,
    evidence_patterns: Vec<Pattern>,
}

impl UngroundedComparisonRule {
    /// The rule holds its own patterns.
    #[verifier::type_invariant]
    spec fn holds_patterns(&self) -> bool {
        &&& sources(self.claim_patterns@) == claim_sources()
        &&& sources(self.evidence_patterns@) == evidence_sources()
    }

    /// The rule; fails exactly when one of its patterns does not compile.
    pub fn new() -> (r: Result<Self, IntegrityError>)
        ensures
            r is Ok <==> all_compile(claim_sources()) && all_compile(evidence_sources()),
    {
        let claim_patterns = compile_all(&[r"(?i)No\.?\s*1", r"(?i)ナンバーワン", r"(?i)業界一", r"(?i)最安", r"(?i)一番人気", r"(?i)トップクラス", r"(?i)業界最高", r"(?i)日本一", r"(?i)世界一", r"(?i)最大級", r"(?i)首位", r"(?i)シェアNo"])?;
        let evidence_patterns = compile_all(&[r"調査", r"期間", r"(?i)n\s*=\s*\d+", r"母数", r"サンプル", r"出典", r"(?i)\d{4}年", r"調査会社", r"リサーチ"])?;
        Ok(Self { claim_patterns, evidence_patterns })
    }

    /// The claims found in `text`.
    fn find_claims(&self, text: &str) -> (r: Vec<String>)
        ensures
            texts(r@) == texts_matching(text@, claim_sources()),
            all_within(texts(r@), text@),
    {
        proof {
            use_type_invariant(self);
        }
        find_in(text, &self.claim_patterns)
    }

    /// Whether `text` states a basis.
    fn has_evidence(&self, text: &str) -> (r: bool)
        ensures
            r == any_pattern_matches(text@, evidence_sources()),
    {
        proof {
            use_type_invariant(self);
        }
        any_match(text, &self.evidence_patterns)
    }
}

impl Rule for UngroundedComparisonRule {
    open spec fn spec_constraint(&self) -> u8 {
        6
    }

    open spec fn spec_check(&self, doc: DocumentView) -> Seq<ViolationView> {
        ungrounded_check(doc.blocks)
    }

    fn constraint_id(&self) -> (r: ConstraintId) {
        ConstraintId::ungrounded_comparison()
    }

    /// Each violation's snippets occur in its context.
    fn check(&self, doc: &Document) -> (r: Vec<Violation>)
        ensures
            all_snippets_in_context(violations_view(r@)),
    {
        let ghost bs = doc@.blocks;
        let mut violations: Vec<Violation> = Vec::new();
        let mut i: usize = 0;
        while i < doc.blocks.len()
            invariant
                i <= bs.len(),
                bs == doc@.blocks,
                violations_view(violations@) == ungrounded_check(bs.take(i as int)),
                all_snippets_in_context(violations_view(violations@)),
            decreases bs.len() - i,
        {
            let block = &doc.blocks[i];
            assert(bs[i as int] == block@);
            let claims = self.find_claims(block.text.as_str());
            let ghost before = violations_view(violations@);
            if claims.len() > 0 && !self.has_evidence(block.text.as_str()) {
                assert(strings_view(claims@) == texts(claims@));
                let ghost vb = violations_view(violations@);
                let v = violation_in_block(self.constraint_id(), claims, block);
                violations.push(v);
                assert(violations_view(violations@) =~= vb.push(v@));
            }
            assert(violations_view(violations@) =~= before + ungrounded_for(block@));
            assert(bs.take(i + 1).drop_last() =~= bs.take(i as int));
            assert(bs.take(i + 1).last() == block@);
            i = i + 1;
        }
        assert(bs.take(bs.len() as int) =~= bs);
        violations
    }
}


/// A block is reported for constraint 6 exactly when it makes a superiority
/// claim and no pattern of the evidence list matches its text: a match of any
/// pattern of that list, the first one included, clears the block; a block
/// with a claim and no such match gets one violation, at its line, with the
/// claims as snippets.
pub proof fn law_ungrounded_block(b: crate::block::BlockView)
    ensures
        (exists|i: int| 0 <= i < evidence_sources().len() && #[trigger] regex_find_all(evidence_sources()[i], b.text).len()
            > 0) ==> ungrounded_for(b).len() == 0,
        texts_matching(b.text, claim_sources()).len() == 0 ==> ungrounded_for(b).len() == 0,
        texts_matching(b.text, claim_sources()).len() > 0 && (forall|i: int| 0 <= i < evidence_sources().len()
            ==> #[trigger] regex_find_all(evidence_sources()[i], b.text).len() == 0) ==> {
            &&& ungrounded_for(b).len() == 1
            &&& ungrounded_for(b)[0].constraint_id == 6
            &&& ungrounded_for(b)[0].evidence.line == Some(b.line_number)
            &&& ungrounded_for(b)[0].evidence.snippets == texts_matching(b.text, claim_sources())
        },
{
}

/// A text in which every block either makes no superiority claim or has a match
/// of some pattern of the evidence list (any of them, the first included)
/// gets no constraint-6 violation.
pub proof fn law_ungrounded_cleared(bs: Seq<crate::block::BlockView>)
    requires
        forall|k: int| 0 <= k < bs.len() ==> texts_matching(#[trigger] bs[k].text, claim_sources()).len() == 0
            || exists|i: int| 0 <= i < evidence_sources().len() && #[trigger] regex_find_all(evidence_sources()[i], bs[k].text).len() > 0,
    ensures
        ungrounded_check(bs).len() == 0,
    decreases bs.len(),
{
    if bs.len() > 0 {
        let d = bs.drop_last();
        assert forall|k: int| 0 <= k < d.len() implies texts_matching(#[trigger] d[k].text, claim_sources()).len() == 0
            || exists|i: int| 0 <= i < evidence_sources().len() && #[trigger] regex_find_all(evidence_sources()[i], d[k].text).len() > 0 by {
            assert(d[k] == bs[k]);
        }
        law_ungrounded_cleared(d);
        assert(bs[bs.len() - 1] == bs.last());
        law_ungrounded_block(bs.last());
    }
}

} // verus!
