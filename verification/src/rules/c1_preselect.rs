//! 制約① プリセレクトの禁止：ユーザーの明示的な意思なく、オプションが事前に選択されている状態を検出する。
use vstd::prelude::*;
use crate::constraint::ConstraintId;
use crate::document::{Document, DocumentView};
use crate::error::IntegrityError;
use crate::text::lit_views;
use crate::pattern::{Pattern, all_compile, compile_all, sources};
use crate::report::{Violation, ViolationView, violations_view};
use crate::rule::{Rule, collect_matches, create_violation_from_matches, lexical_check};

verus! {

/// The patterns of preselection wording.
pub open spec fn preselect_sources() -> Seq<Seq<char>> {
    lit_views(seq![r"(?i)チェック済み", r"(?i)デフォルトで(ON|オン|有効)", r"(?i)初期選択", r"(?i)あらかじめ選択", r"(?i)事前に選択", r"(?i)checked\s+by\s+default", r"(?i)pre[-\s]?selected", r"(?i)default(ed)?\s+(to|is)\s+(on|selected|checked)", r"(?i)最初から(選択|チェック|ON)", r"(?i)自動的に(選択|チェック|追加)"])
}

/// Reports every match of its patterns as one violation of constraint 1.
pub struct PreselectRule {
    patterns: Vec<Pattern>,
}

impl PreselectRule {
    /// The rule holds its own patterns.
    #[verifier::type_invariant]
    spec fn holds_patterns(&self) -> bool {
        sources(self.patterns@) == preselect_sources()
    }

    /// The rule; fails exactly when one of its patterns does not compile.
    pub fn new() -> (r: Result<Self, IntegrityError>)
        ensures
            r is Ok <==> all_compile(preselect_sources()),
    {
        let patterns = compile_all(&[r"(?i)チェック済み", r"(?i)デフォルトで(ON|オン|有効)", r"(?i)初期選択", r"(?i)あらかじめ選択", r"(?i)事前に選択", r"(?i)checked\s+by\s+default", r"(?i)pre[-\s]?selected", r"(?i)default(ed)?\s+(to|is)\s+(on|selected|checked)", r"(?i)最初から(選択|チェック|ON)", r"(?i)自動的に(選択|チェック|追加)"])?;
        Ok(Self { patterns })
    }
}

impl Rule for PreselectRule {
    open spec fn spec_constraint(&self) -> u8 {
        1
    }

    open spec fn spec_check(&self, doc: DocumentView) -> Seq<ViolationView> {
        lexical_check(1, doc.blocks, preselect_sources())
    }

    fn constraint_id(&self) -> (r: ConstraintId) {
        ConstraintId::preselect()
    }

    fn check(&self, doc: &Document) -> (r: Vec<Violation>) {
        proof {
            use_type_invariant(self);
        }
        let matches = collect_matches(doc, &self.patterns);
        let mut r: Vec<Violation> = Vec::new();
        match create_violation_from_matches(self.constraint_id(), matches) {
            Some(v) => {
                r.push(v);
                assert(violations_view(r@) =~= seq![v@]);
            },
            None => {
                assert(violations_view(r@) =~= Seq::<ViolationView>::empty());
            },
        }
        r
    }
}

} // verus!
