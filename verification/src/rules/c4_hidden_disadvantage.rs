//! 制約④ 不利情報隠しの禁止：目立たない場所に置かれた不利な情報を検出する。
use vstd::prelude::*;
use crate::constraint::ConstraintId;
use crate::document::{Document, DocumentView};
use crate::error::IntegrityError;
use crate::text::lit_views;
use crate::pattern::{Pattern, all_compile, compile_all, sources};
use crate::report::{Violation, ViolationView, violations_view};
use crate::rule::{Rule, collect_matches, create_violation_from_matches, lexical_check};

verus! {

/// The patterns of hidden-disadvantage wording.
pub open spec fn hidden_disadvantage_sources() -> Seq<Seq<char>> {
    lit_views(seq![r"※\s*詳細", r"(?i)別ページに記載", r"(?i)利用規約(に|を)(記載|ご確認|参照)", r"(?i)小さく書いて", r"(?i)注釈(を)?参照", r"(?i)詳しくはこちら", r"(?i)詳細は(別途|後日|別ページ)", r"(?i)条件(は|については).*参照", r"※[^。]{0,20}(条件|詳細|規約)", r"(?i)\*\s*(条件|詳細|適用)"])
}

/// Reports every match of its patterns as one violation of constraint 4.
pub struct HiddenDisadvantageRule {
    patterns: Vec<Pattern>,
}

impl HiddenDisadvantageRule {
    /// The rule holds its own patterns.
    #[verifier::type_invariant]
    spec fn holds_patterns(&self) -> bool {
        sources(self.patterns@) == hidden_disadvantage_sources()
    }

    /// The rule; fails exactly when one of its patterns does not compile.
    pub fn new() -> (r: Result<Self, IntegrityError>)
        ensures
            r is Ok <==> all_compile(hidden_disadvantage_sources()),
    {
        let patterns = compile_all(&[r"※\s*詳細", r"(?i)別ページに記載", r"(?i)利用規約(に|を)(記載|ご確認|参照)", r"(?i)小さく書いて", r"(?i)注釈(を)?参照", r"(?i)詳しくはこちら", r"(?i)詳細は(別途|後日|別ページ)", r"(?i)条件(は|については).*参照", r"※[^。]{0,20}(条件|詳細|規約)", r"(?i)\*\s*(条件|詳細|適用)"])?;
        Ok(Self { patterns })
    }
}

impl Rule for HiddenDisadvantageRule {
    open spec fn spec_constraint(&self) -> u8 {
        4
    }

    open spec fn spec_check(&self, doc: DocumentView) -> Seq<ViolationView> {
        lexical_check(4, doc.blocks, hidden_disadvantage_sources())
    }

    fn constraint_id(&self) -> (r: ConstraintId) {
        ConstraintId::hidden_disadvantage()
    }

    fn check(&self, doc: &Document) -> (r: Vec<Violation>) {
        proof {
            use_type_invariant(self);
        }
        let matches = collect_matches(doc, &self.patterns);
        let mut r: Vec<Violation> = Vec::new();
        match create_violation_from_matches(self.constraint_id(), matches) {
            Some(v) => {
                r.push(v);
                assert(violations_view(r@) =~= seq![v@]);
            },
            None => {
                assert(violations_view(r@) =~= Seq::<ViolationView>::empty());
            },
        }
        r
    }
}

} // verus!
