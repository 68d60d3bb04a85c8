//! 制約⑤ 事実と意見の混在禁止：同一段落内の事実（数値・データ）と意見（おすすめ・評価）の混在を検出する。
use vstd::prelude::*;
use crate::constraint::ConstraintId;
use crate::document::{Document, DocumentView};
use crate::error::IntegrityError;
use crate::text::lit_views;
use crate::pattern::{Pattern, all_compile, compile_all, sources, texts};
use crate::report::{Violation, ViolationView, strings_view, violations_view};
use crate::rule::{Rule, all_snippets_in_context, all_within, block_violation, find_in, texts_matching, violation_in_block};

verus! {

/// The patterns of facts.
pub open spec fn fact_sources() -> Seq<Seq<char>> {
    lit_views(seq![r"\d+%", r"\d+人", r"\d+件", r"調査(結果|では|によ)", r"統計", r"データ(によ|では)", r"実績", r"満足度\d+"])
}

/// The patterns of opinions.
pub open spec fn opinion_sources() -> Seq<Seq<char>> {
    lit_views(seq![r"(?i)おすすめ", r"(?i)最高", r"(?i)今すぐ", r"(?i)ぜひ", r"(?i)絶対", r"(?i)必見", r"(?i)お見逃しなく", r"(?i)間違いない"])
}

/// Constraint 5 for one block: facts and opinions both present; the
/// snippets are the facts, then the opinions.
pub open spec fn fact_opinion_for(b: crate::block::BlockView) -> Seq<ViolationView> {
    let facts = texts_matching(b.text, fact_sources());
    let opinions = texts_matching(b.text, opinion_sources());
    if facts.len() > 0 && opinions.len() > 0 {
        seq![block_violation(5, facts + opinions, b)]
    } else {
        Seq::empty()
    }
}

/// Constraint 5, block by block.
pub open spec fn fact_opinion_check(bs: Seq<crate::block::BlockView>) -> Seq<ViolationView>
    decreases bs.len(),
{
    if bs.len() == 0 {
        Seq::empty()
    } else {
        fact_opinion_check(bs.drop_last()) + fact_opinion_for(bs.last())
    }
}

/// Reports each block that mixes facts and opinions.
pub struct FactOpinionMixRule {
    fact_patterns: Vec<Pattern>,
    opinion_patterns: Vec<Pattern>,
}

impl FactOpinionMixRule {
    /// The rule holds its own patterns.
    #[verifier::type_invariant]
    spec fn holds_patterns(&self) -> bool {
        &&& sources(self.fact_patterns@) == fact_sources()
        &&& sources(self.opinion_patterns@) == opinion_sources()
    }

    /// The rule; fails exactly when one of its patterns does not compile.
    pub fn new() -> (r: Result<Self, IntegrityError>)
        ensures
            r is Ok <==> all_compile(fact_sources()) && all_compile(opinion_sources()),
    {
        let fact_patterns = compile_all(&[r"\d+%", r"\d+人", r"\d+件", r"調査(結果|では|によ)", r"統計", r"データ(によ|では)", r"実績", r"満足度\d+"])?;
        let opinion_patterns = compile_all(&[r"(?i)おすすめ", r"(?i)最高", r"(?i)今すぐ", r"(?i)ぜひ", r"(?i)絶対", r"(?i)必見", r"(?i)お見逃しなく", r"(?i)間違いない"])?;
        Ok(Self { fact_patterns, opinion_patterns })
    }

    /// The facts found in `text`.
    fn find_facts(&self, text: &str) -> (r: Vec<String>)
        ensures
            texts(r@) == texts_matching(text@, fact_sources()),
            all_within(texts(r@), text@),
    {
        proof {
            use_type_invariant(self);
        }
        find_in(text, &self.fact_patterns)
    }

    /// The opinions found in `text`.
    fn find_opinions(&self, text: &str) -> (r: Vec<String>)
        ensures
            texts(r@) == texts_matching(text@, opinion_sources()),
            all_within(texts(r@), text@),
    {
        proof {
            use_type_invariant(self);
        }
        find_in(text, &self.opinion_patterns)
    }
}

impl Rule for FactOpinionMixRule {
    open spec fn spec_constraint(&self) -> u8 {
        5
    }

    open spec fn spec_check(&self, doc: DocumentView) -> Seq<ViolationView> {
        fact_opinion_check(doc.blocks)
    }

    fn constraint_id(&self) -> (r: ConstraintId) {
        ConstraintId::fact_opinion_mix()
    }

    /// Each violation's snippets occur in its context.
    fn check(&self, doc: &Document) -> (r: Vec<Violation>)
        ensures
            all_snippets_in_context(violations_view(r@)),
    {
        let ghost bs = doc@.blocks;
        let mut violations: Vec<Violation> = Vec::new();
        let mut i: usize = 0;
        while i < doc.blocks.len()
            invariant
                i <= bs.len(),
                bs == doc@.blocks,
                violations_view(violations@) == fact_opinion_check(bs.take(i as int)),
                all_snippets_in_context(violations_view(violations@)),
            decreases bs.len() - i,
        {
            let block = &doc.blocks[i];
            assert(bs[i as int] == block@);
            let facts = self.find_facts(block.text.as_str());
            let opinions = self.find_opinions(block.text.as_str());
            let ghost before = violations_view(violations@);
            if facts.len() > 0 && opinions.len() > 0 {
                let mut snippets = facts;
                let ghost fv = texts(snippets@);
                let mut j: usize = 0;
                while j < opinions.len()
                    invariant
                        j <= opinions@.len(),
                        texts(snippets@) == fv + texts(opinions@).take(j as int),
                        all_within(texts(snippets@), block.text@),
                        all_within(texts(opinions@), block.text@),
                    decreases opinions@.len() - j,
                {
                    let ghost b2 = texts(snippets@);
                    snippets.push(opinions[j].clone());
                    assert(texts(snippets@) =~= b2.push(opinions@[j as int]@));
                    assert(crate::text::contains(block.text@, texts(opinions@)[j as int]));
                    assert(texts(opinions@).take(j + 1) =~= texts(opinions@).take(j as int).push(opinions@[j as int]@));
                    j = j + 1;
                }
                assert(texts(opinions@).take(opinions@.len() as int) =~= texts(opinions@));
                assert(strings_view(snippets@) == texts(snippets@));
                let ghost vb = violations_view(violations@);
                let v = violation_in_block(self.constraint_id(), snippets, block);
                violations.push(v);
                assert(violations_view(violations@) =~= vb.push(v@));
            }
            assert(violations_view(violations@) =~= before + fact_opinion_for(block@));
            assert(bs.take(i + 1).drop_last() =~= bs.take(i as int));
            assert(bs.take(i + 1).last() == block@);
            i = i + 1;
        }
        assert(bs.take(bs.len() as int) =~= bs);
        violations
    }
}

} // verus!
