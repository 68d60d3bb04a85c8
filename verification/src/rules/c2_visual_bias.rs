//! 制約② 視覚格差の禁止：選択肢間の視覚的な差異による誘導を検出する。
use vstd::prelude::*;
use crate::constraint::ConstraintId;
use crate::document::{Document, DocumentView};
use crate::error::IntegrityError;
use crate::text::lit_views;
use crate::pattern::{Pattern, all_compile, compile_all, sources};
use crate::report::{Violation, ViolationView, violations_view};
use crate::rule::{Rule, collect_matches, create_violation_from_matches, lexical_check};

verus! {

/// The patterns of visual disparity wording.
pub open spec fn visual_bias_sources() -> Seq<Seq<char>> {
    lit_views(seq![r"(?i)目立つボタン", r"(?i)赤い(ボタン|文字|色)", r"(?i)大きく(表示|見せる)", r"(?i)小さく(表示|見せる)", r"(?i)グレーアウト", r"(?i)目立たない(ように|色|位置|場所)", r"(?i)薄い(色|グレー)で表示", r"(?i)強調(表示|する|して)", r"(?i)太字で(表示|強調)", r"(?i)色を変え(て|る)", r"(?i)サイズを(大きく|小さく)", r"(?i)目立(つ|た)せ(る|ない)"])
}

/// Reports every match of its patterns as one violation of constraint 2.
pub struct VisualBiasRule {
    patterns: Vec<Pattern>,
}

impl VisualBiasRule {
    /// The rule holds its own patterns.
    #[verifier::type_invariant]
    spec fn holds_patterns(&self) -> bool {
        sources(self.patterns@) == visual_bias_sources()
    }

    /// The rule; fails exactly when one of its patterns does not compile.
    pub fn new() -> (r: Result<Self, IntegrityError>)
        ensures
            r is Ok <==> all_compile(visual_bias_sources()),
    {
        let patterns = compile_all(&[r"(?i)目立つボタン", r"(?i)赤い(ボタン|文字|色)", r"(?i)大きく(表示|見せる)", r"(?i)小さく(表示|見せる)", r"(?i)グレーアウト", r"(?i)目立たない(ように|色|位置|場所)", r"(?i)薄い(色|グレー)で表示", r"(?i)強調(表示|する|して)", r"(?i)太字で(表示|強調)", r"(?i)色を変え(て|る)", r"(?i)サイズを(大きく|小さく)", r"(?i)目立(つ|た)せ(る|ない)"])?;
        Ok(Self { patterns })
    }
}

impl Rule for VisualBiasRule {
    open spec fn spec_constraint(&self) -> u8 {
        2
    }

    open spec fn spec_check(&self, doc: DocumentView) -> Seq<ViolationView> {
        lexical_check(2, doc.blocks, visual_bias_sources())
    }

    fn constraint_id(&self) -> (r: ConstraintId) {
        ConstraintId::visual_bias()
    }

    fn check(&self, doc: &Document) -> (r: Vec<Violation>) {
        proof {
            use_type_invariant(self);
        }
        let matches = collect_matches(doc, &self.patterns);
        let mut r: Vec<Violation> = Vec::new();
        match create_violation_from_matches(self.constraint_id(), matches) {
            Some(v) => {
                r.push(v);
                assert(violations_view(r@) =~= seq![v@]);
            },
            None => {
                assert(violations_view(r@) =~= Seq::<ViolationView>::empty());
            },
        }
        r
    }
}

} // verus!
