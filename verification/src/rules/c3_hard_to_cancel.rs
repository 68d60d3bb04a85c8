//! 制約③ やめにくさの禁止：開始より困難な解約・退会・キャンセル手続きを検出する。
use vstd::prelude::*;
use crate::constraint::ConstraintId;
use crate::document::{Document, DocumentView};
use crate::error::IntegrityError;
use crate::text::lit_views;
use crate::pattern::{Pattern, all_compile, compile_all, sources};
use crate::report::{Violation, ViolationView, violations_view};
use crate::rule::{Rule, collect_matches, create_violation_from_matches, lexical_check};

verus! {

/// The patterns of hard-to-cancel wording.
pub open spec fn hard_to_cancel_sources() -> Seq<Seq<char>> {
    lit_views(seq![r"(?i)解約は電話", r"(?i)解約(の|には|する場合).*(お問い合わせ|連絡|お電話)", r"(?i)(解約|退会|キャンセル).*(手続きが必要|手続きを)", r"(?i)解約は別(ページ|画面|サイト)", r"(?i)カスタマーサポート.*(連絡|お電話|ご連絡|まで)", r"(?i)(解約|退会).*電話.*のみ", r"(?i)書面(で|による)(解約|退会)", r"(?i)(解約|退会).*郵送", r"(?i)(平日|営業時間).*(解約|受付)", r"(?i)(解約|退会).*窓口.*お越し", r"(?i)(解約|退会).*(お電話|電話)"])
}

/// Reports every match of its patterns as one violation of constraint 3.
pub struct HardToCancelRule {
    patterns: Vec<Pattern>,
}

impl HardToCancelRule {
    /// The rule holds its own patterns.
    #[verifier::type_invariant]
    spec fn holds_patterns(&self) -> bool {
        sources(self.patterns@) == hard_to_cancel_sources()
    }

    /// The rule; fails exactly when one of its patterns does not compile.
    pub fn new() -> (r: Result<Self, IntegrityError>)
        ensures
            r is Ok <==> all_compile(hard_to_cancel_sources()),
    {
        let patterns = compile_all(&[r"(?i)解約は電話", r"(?i)解約(の|には|する場合).*(お問い合わせ|連絡|お電話)", r"(?i)(解約|退会|キャンセル).*(手続きが必要|手続きを)", r"(?i)解約は別(ページ|画面|サイト)", r"(?i)カスタマーサポート.*(連絡|お電話|ご連絡|まで)", r"(?i)(解約|退会).*電話.*のみ", r"(?i)書面(で|による)(解約|退会)", r"(?i)(解約|退会).*郵送", r"(?i)(平日|営業時間).*(解約|受付)", r"(?i)(解約|退会).*窓口.*お越し", r"(?i)(解約|退会).*(お電話|電話)"])?;
        Ok(Self { patterns })
    }
}

impl Rule for HardToCancelRule {
    open spec fn spec_constraint(&self) -> u8 {
        3
    }

    open spec fn spec_check(&self, doc: DocumentView) -> Seq<ViolationView> {
        lexical_check(3, doc.blocks, hard_to_cancel_sources())
    }

    fn constraint_id(&self) -> (r: ConstraintId) {
        ConstraintId::hard_to_cancel()
    }

    fn check(&self, doc: &Document) -> (r: Vec<Violation>) {
        proof {
            use_type_invariant(self);
        }
        let matches = collect_matches(doc, &self.patterns);
        let mut r: Vec<Violation> = Vec::new();
        match create_violation_from_matches(self.constraint_id(), matches) {
            Some(v) => {
                r.push(v);
                assert(violations_view(r@) =~= seq![v@]);
            },
            None => {
                assert(violations_view(r@) =~= Seq::<ViolationView>::empty());
            },
        }
        r
    }
}

} // verus!
