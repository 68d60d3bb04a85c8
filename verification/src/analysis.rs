//! Analysis of a Markdown page against the seven hard constraints, by word
//! lists: each block is lowercased and searched for the words that signal a
//! constraint and for the words that would justify it.
use vstd::prelude::*;
use crate::model::{Block, BlockKind, BlockView, Document, KindView, block_views};
use crate::sorting::{insert_pos, lemma_insert_by_splice, lemma_sort_by, ordered_by, sort_by};
use crate::text::{
    chars_of, contains, contains_any, contains_any_of, contains_chars, lit_views, lowercase, owned,
    terms_of, to_lowercase, views,
};

verus! {

// ---------------------------------------------------------------------------
// Reports
// ---------------------------------------------------------------------------

/// One finding of the analysis.
#[derive(Debug, Clone)]
pub struct Violation {
    pub constraint_id: u8,
    pub summary: String,
    pub details: String,
    pub suggestion: Option<String>,
    /// The position of the block concerned, when one block is.
    pub block_index: Option<usize>,
    /// Whether the finding rests on a stated assumption rather than on the text alone.
    pub assumption: bool,
}

/// The outcome of analysing a document.
#[derive(Debug, Clone)]
pub struct AnalysisReport {
    pub violations: Vec<Violation>,
    pub assumptions: Vec<String>,
}

/// Mathematical model of a `Violation`.
pub struct ViolationView {
    pub constraint_id: u8,
    pub summary: Seq<char>,
    pub details: Seq<char>,
    pub suggestion: Option<Seq<char>>,
    pub block_index: Option<usize>,
    pub assumption: bool,
}

/// Mathematical model of an `AnalysisReport`.
pub struct AnalysisReportView {
    pub violations: Seq<ViolationView>,
    pub assumptions: Seq<Seq<char>>,
}

impl View for Violation {
    type V = ViolationView;

    open spec fn view(&self) -> ViolationView {
        ViolationView {
            constraint_id: self.constraint_id,
            summary: self.summary@,
            details: self.details@,
            suggestion: crate::model::opt_view(self.suggestion),
            block_index: self.block_index,
            assumption: self.assumption,
        }
    }
}

/// The models of a sequence of findings.
pub open spec fn violation_views(vs: Seq<Violation>) -> Seq<ViolationView> {
    vs.map_values(|v: Violation| v@)
}

/// The models of a sequence of strings.
pub open spec fn string_views(ss: Seq<String>) -> Seq<Seq<char>> {
    ss.map_values(|s: String| s@)
}

impl View for AnalysisReport {
    type V = AnalysisReportView;

    open spec fn view(&self) -> AnalysisReportView {
        AnalysisReportView {
            violations: violation_views(self.violations@),
            assumptions: string_views(self.assumptions@),
        }
    }
}

impl AnalysisReport {
    /// A report with no findings and the given assumptions.
    pub fn new(assumptions: Vec<String>) -> (r: Self)
        ensures
            r.violations@.len() == 0,
            r.assumptions == assumptions,
    {
        Self { violations: Vec::new(), assumptions }
    }

    /// Whether the document fails: it has at least one finding.
    pub fn hard_fail(&self) -> (r: bool)
        ensures
            r == (self.violations@.len() > 0),
    {
        self.violations.len() > 0
    }
}

/// A finding with all its parts given.
pub open spec fn finding(
    id: u8,
    summary: Seq<char>,
    details: Seq<char>,
    suggestion: Seq<char>,
    block_index: Option<usize>,
    assumption: bool,
) -> ViolationView {
    ViolationView {
        constraint_id: id,
        summary: summary,
        details: details,
        suggestion: Some(suggestion),
        block_index: block_index,
        assumption: assumption,
    }
}

/// Builds a finding.
fn make_violation(
    id: u8,
    summary: &str,
    details: &str,
    suggestion: &str,
    block_index: Option<usize>,
    assumption: bool,
) -> (r: Violation)
    ensures
        r@ == finding(id, summary@, details@, suggestion@, block_index, assumption),
{
    Violation {
        constraint_id: id,
        summary: owned(summary),
        details: owned(details),
        suggestion: Some(owned(suggestion)),
        block_index,
        assumption,
    }
}

// ---------------------------------------------------------------------------
// Word lists
// ---------------------------------------------------------------------------

/// The `preselect` word list.
pub open spec fn preselect_terms() -> Seq<Seq<char>> {
    lit_views(seq!["デフォルト", "初期", "あらかじめ", "事前", "自動", "プリセット", "チェック済", "同意済", "登録済", "opt-out", "opt out", "preselect", "pre-selected", "pre selected", "checked by default", "prechecked", "[x]", "☑"])
}

/// The `action` word list.
pub open spec fn action_terms() -> Seq<Seq<char>> {
    lit_views(seq!["同意", "購読", "購入", "申込", "申し込み", "登録", "利用", "データ", "共有", "送信", "subscribe", "buy", "purchase", "sign up", "agree", "consent"])
}

/// The `preference` word list.
pub open spec fn preference_terms() -> Seq<Seq<char>> {
    lit_views(seq!["おすすめ", "人気", "推奨", "ベスト", "一番", "no.1", "no1"])
}

/// The `cancel` word list.
pub open spec fn cancel_terms() -> Seq<Seq<char>> {
    lit_views(seq!["解約", "退会", "停止", "キャンセル", "解除", "撤回", "中止", "refund", "cancel", "opt out"])
}

/// The `cancel_difficulty` word list.
pub open spec fn cancel_difficulty_terms() -> Seq<Seq<char>> {
    lit_views(seq!["問い合わせ", "電話", "メール", "窓口", "別ページ", "後日", "手続き", "フォーム", "書面", "訪問", "本人確認"])
}

/// The `adverse` word list.
pub open spec fn adverse_terms() -> Seq<Seq<char>> {
    lit_views(seq!["料金", "価格", "制限", "例外", "条件", "追加費用", "違約金"])
}

/// The `deferral` word list.
pub open spec fn deferral_terms() -> Seq<Seq<char>> {
    lit_views(seq!["別ページ", "別途", "折りたたみ", "詳細はこちら", "詳しくは", "規約", "faq", "リンク先", "後日"])
}

/// The `fact` word list.
pub open spec fn fact_terms() -> Seq<Seq<char>> {
    lit_views(seq!["円", "¥", "%", "時間", "日", "期間", "料金", "価格", "条件", "制限", "提供", "含ま", "対応", "仕様", "機能", "対象", "開始日", "終了日", "在庫", "数量"])
}

/// The `claim` word list.
pub open spec fn claim_terms() -> Seq<Seq<char>> {
    lit_views(seq!["おすすめ", "人気", "最高", "最強", "最適", "素晴らしい", "安心", "簡単", "お得", "便利", "no.1", "no1", "ベスト", "大人気", "圧倒的"])
}

/// The `cta` word list.
pub open spec fn cta_terms() -> Seq<Seq<char>> {
    lit_views(seq!["申し込む", "申込", "登録", "購入", "同意", "今すぐ", "クリック", "開始", "参加", "無料で始める", "subscribe", "buy", "sign up", "download", "try", "get started", "apply"])
}

/// The `comparison` word list.
pub open spec fn comparison_terms() -> Seq<Seq<char>> {
    lit_views(seq!["no.1", "no1", "一番", "最安", "最速", "最高", "人気", "おすすめ", "ベスト", "ランキング", "トップ", "leading", "best", "top", "number one", "最も"])
}

/// The `comparison_evidence` word list.
pub open spec fn comparison_evidence_terms() -> Seq<Seq<char>> {
    lit_views(seq!["根拠", "出典", "調査", "アンケート", "データ", "※", "source", "n=", "対象", "期間", "比較対象", "条件", "時点", "http", "https"])
}

/// The `urgency` word list.
pub open spec fn urgency_terms() -> Seq<Seq<char>> {
    lit_views(seq!["今だけ", "限定", "残り", "わずか", "あと", "急げ", "本日限り", "先着", "タイムセール", "minutes left", "hours left", "ends soon", "締切"])
}

/// The `urgency_evidence` word list.
pub open spec fn urgency_evidence_terms() -> Seq<Seq<char>> {
    lit_views(seq!["期限", "在庫", "更新", "基準", "数量", "残数", "日時", "日付", "時点", "http", "https"])
}

/// The `attention_grab` word list.
pub open spec fn attention_grab_terms() -> Seq<Seq<char>> {
    lit_views(seq!["点滅", "blink", "カウントダウン", "countdown"])
}

/// Units of time and date, which make a number a time reference.
pub open spec fn time_units() -> Seq<Seq<char>> {
    lit_views(seq!["年", "月", "日", "時間", "分", "秒", "時"])
}

/// The assumptions the analysis states with its findings.
pub open spec fn assumption_texts() -> Seq<Seq<char>> {
    lit_views(seq!["v0 assumption: If a start/subscribe CTA exists but no stop/decline info appears, warn for constraint 3.", "v0 assumption: If a list of options contains preference words or emphasis markers, warn for constraint 2."])
}

/// The word lists of the analysis.
struct AnalysisConfig {

    preselect_terms: Vec<Vec<char>>,
    action_terms: Vec<Vec<char>>,
    preference_terms: Vec<Vec<char>>,
    cancel_terms: Vec<Vec<char>>,
    cancel_difficulty_terms: Vec<Vec<char>>,
    adverse_terms: Vec<Vec<char>>,
    deferral_terms: Vec<Vec<char>>,
    fact_terms: Vec<Vec<char>>,
    claim_terms: Vec<Vec<char>>,
    cta_terms: Vec<Vec<char>>,
    comparison_terms: Vec<Vec<char>>,
    comparison_evidence_terms: Vec<Vec<char>>,
    urgency_terms: Vec<Vec<char>>,
    urgency_evidence_terms: Vec<Vec<char>>,
    attention_grab_terms: Vec<Vec<char>>,
    time_units: Vec<Vec<char>>,
    assumptions: Vec<&'static str>,
}

impl AnalysisConfig {
    /// Each list holds its words.
    closed spec fn wf(&self) -> bool {
        &&& lit_views(self.assumptions@) == assumption_texts()
        &&& views(self.time_units@) == time_units()
        &&& views(self.preselect_terms@) == preselect_terms()
        &&& views(self.action_terms@) == action_terms()
        &&& views(self.preference_terms@) == preference_terms()
        &&& views(self.cancel_terms@) == cancel_terms()
        &&& views(self.cancel_difficulty_terms@) == cancel_difficulty_terms()
        &&& views(self.adverse_terms@) == adverse_terms()
        &&& views(self.deferral_terms@) == deferral_terms()
        &&& views(self.fact_terms@) == fact_terms()
        &&& views(self.claim_terms@) == claim_terms()
        &&& views(self.cta_terms@) == cta_terms()
        &&& views(self.comparison_terms@) == comparison_terms()
        &&& views(self.comparison_evidence_terms@) == comparison_evidence_terms()
        &&& views(self.urgency_terms@) == urgency_terms()
        &&& views(self.urgency_evidence_terms@) == urgency_evidence_terms()
        &&& views(self.attention_grab_terms@) == attention_grab_terms()
    }

    /// The word lists of version 0.
    fn v0() -> (r: Self)
        ensures
            r.wf(),
    {
        let assumptions = vec!["v0 assumption: If a start/subscribe CTA exists but no stop/decline info appears, warn for constraint 3.", "v0 assumption: If a list of options contains preference words or emphasis markers, warn for constraint 2."];
        assert(lit_views(assumptions@) == assumption_texts());
        Self {
            preselect_terms: terms_of(&["デフォルト", "初期", "あらかじめ", "事前", "自動", "プリセット", "チェック済", "同意済", "登録済", "opt-out", "opt out", "preselect", "pre-selected", "pre selected", "checked by default", "prechecked", "[x]", "☑"]),
            action_terms: terms_of(&["同意", "購読", "購入", "申込", "申し込み", "登録", "利用", "データ", "共有", "送信", "subscribe", "buy", "purchase", "sign up", "agree", "consent"]),
            preference_terms: terms_of(&["おすすめ", "人気", "推奨", "ベスト", "一番", "no.1", "no1"]),
            cancel_terms: terms_of(&["解約", "退会", "停止", "キャンセル", "解除", "撤回", "中止", "refund", "cancel", "opt out"]),
            cancel_difficulty_terms: terms_of(&["問い合わせ", "電話", "メール", "窓口", "別ページ", "後日", "手続き", "フォーム", "書面", "訪問", "本人確認"]),
            adverse_terms: terms_of(&["料金", "価格", "制限", "例外", "条件", "追加費用", "違約金"]),
            deferral_terms: terms_of(&["別ページ", "別途", "折りたたみ", "詳細はこちら", "詳しくは", "規約", "faq", "リンク先", "後日"]),
            fact_terms: terms_of(&["円", "¥", "%", "時間", "日", "期間", "料金", "価格", "条件", "制限", "提供", "含ま", "対応", "仕様", "機能", "対象", "開始日", "終了日", "在庫", "数量"]),
            claim_terms: terms_of(&["おすすめ", "人気", "最高", "最強", "最適", "素晴らしい", "安心", "簡単", "お得", "便利", "no.1", "no1", "ベスト", "大人気", "圧倒的"]),
            cta_terms: terms_of(&["申し込む", "申込", "登録", "購入", "同意", "今すぐ", "クリック", "開始", "参加", "無料で始める", "subscribe", "buy", "sign up", "download", "try", "get started", "apply"]),
            comparison_terms: terms_of(&["no.1", "no1", "一番", "最安", "最速", "最高", "人気", "おすすめ", "ベスト", "ランキング", "トップ", "leading", "best", "top", "number one", "最も"]),
            comparison_evidence_terms: terms_of(&["根拠", "出典", "調査", "アンケート", "データ", "※", "source", "n=", "対象", "期間", "比較対象", "条件", "時点", "http", "https"]),
            urgency_terms: terms_of(&["今だけ", "限定", "残り", "わずか", "あと", "急げ", "本日限り", "先着", "タイムセール", "minutes left", "hours left", "ends soon", "締切"]),
            urgency_evidence_terms: terms_of(&["期限", "在庫", "更新", "基準", "数量", "残数", "日時", "日付", "時点", "http", "https"]),
            attention_grab_terms: terms_of(&["点滅", "blink", "カウントダウン", "countdown"]),
            time_units: terms_of(&["年", "月", "日", "時間", "分", "秒", "時"]),
            assumptions,
        }
    }
}

// ---------------------------------------------------------------------------
// What each block signals
// ---------------------------------------------------------------------------

/// The lowercased text of a block.
pub open spec fn lc_text(b: BlockView) -> Seq<char> {
    lowercase(b.text)
}

/// The lowercased source of a block.
pub open spec fn lc_raw(b: BlockView) -> Seq<char> {
    lowercase(b.raw)
}

/// An ASCII digit or a full-width digit.
pub open spec fn is_digit_like(c: char) -> bool {
    ('0' <= c && c <= '9') || ('０' <= c && c <= '９')
}

/// The text holds a digit.
pub open spec fn has_number_spec(t: Seq<char>) -> bool {
    exists|i: int| 0 <= i < t.len() && #[trigger] is_digit_like(t[i])
}

/// The text holds a number and a unit of time or date.
pub open spec fn has_time_hint(t: Seq<char>) -> bool {
    has_number_spec(t) && contains_any(t, time_units())
}

/// The source marks emphasis: `**`, `__`, `!!` or `！！`.
pub open spec fn has_emphasis(raw: Seq<char>) -> bool {
    contains(raw, "**"@) || contains(raw, "__"@) || contains(raw, "!!"@) || contains(raw, "！！"@)
}

/// Whether the text holds a digit.
fn has_number(text: &[char]) -> (r: bool)
    ensures
        r == has_number_spec(text@),
{
    let mut i: usize = 0;
    while i < text.len()
        invariant
            i <= text@.len(),
            forall|j: int| 0 <= j < i ==> !#[trigger] is_digit_like(text@[j]),
        decreases text@.len() - i,
    {
        let c = text[i];
        if ('0' <= c && c <= '9') || ('０' <= c && c <= '９') {
            assert(is_digit_like(text@[i as int]));
            return true;
        }
        i = i + 1;
    }
    false
}

/// Whether the text holds a number and a unit of time or date.
fn has_numeric_time_hint(text: &[char], units: &Vec<Vec<char>>) -> (r: bool)
    requires
        views(units@) == time_units(),
    ensures
        r == has_time_hint(text@),
{
    if !has_number(text) {
        return false;
    }
    contains_any_of(text, units)
}

/// Whether the source marks emphasis.
fn has_emphasis_marker(raw: &[char]) -> (r: bool)
    ensures
        r == has_emphasis(raw@),
{
    contains_chars(raw, &chars_of("**")) || contains_chars(raw, &chars_of("__")) || contains_chars(
        raw,
        &chars_of("!!"),
    ) || contains_chars(raw, &chars_of("！！"))
}

// ---------------------------------------------------------------------------
// The findings
// ---------------------------------------------------------------------------

/// Constraint 1 at block `i`.
pub open spec fn preselect_violation(i: usize) -> ViolationView {
    finding(
        1,
        "Default selection is implied"@,
        "Wording suggests preselected or auto-consent behavior."@,
        "State that the initial state is unselected and only confirms after explicit action."@,
        Some(i),
        false,
    )
}

/// Constraint 2 at block `i`.
pub open spec fn visual_violation(i: usize) -> ViolationView {
    finding(
        2,
        "Possible visual disparity between options"@,
        "Within the same list, preference words or emphasis markers are used."@,
        "Keep equivalent options at the same emphasis level and remove highlight words."@,
        Some(i),
        true,
    )
}

/// Constraint 3 at block `i`: stopping needs extra steps.
pub open spec fn cancel_hard_violation(i: usize) -> ViolationView {
    finding(
        3,
        "Stopping action may be harder"@,
        "Cancellation/decline mentions extra steps or separate pages."@,
        "Ensure stopping is available on the same screen with no more steps than starting."@,
        Some(i),
        false,
    )
}

/// Constraint 3 for the whole page: a way to start but none to stop.
pub open spec fn cancel_missing_violation() -> ViolationView {
    finding(
        3,
        "Possible absence of stop/decline path"@,
        "Start/subscribe CTA exists without any stop/decline info on the same screen."@,
        "Describe how to stop/decline on the same screen."@,
        None,
        true,
    )
}

/// Constraint 4 at block `i`.
pub open spec fn hidden_violation(i: usize) -> ViolationView {
    finding(
        4,
        "Unfavorable info deferred or off-page"@,
        "Pricing/conditions appear to be deferred to another page or later."@,
        "Place pricing, conditions, and limits alongside the main description."@,
        Some(i),
        false,
    )
}

/// Constraint 5 at block `i`.
pub open spec fn mixed_violation(i: usize) -> ViolationView {
    finding(
        5,
        "FACT/CLAIM/CTA mixed"@,
        "Multiple meaning types appear in the same block."@,
        "Separate facts, claims, and calls-to-action into distinct blocks."@,
        Some(i),
        false,
    )
}

/// Constraint 6 at block `i`.
pub open spec fn comparison_violation(i: usize) -> ViolationView {
    finding(
        6,
        "Comparison without evidence"@,
        "Comparative wording appears without target, conditions, or evidence."@,
        "Add comparison target, conditions, time, and evidence, or remove the comparison."@,
        Some(i),
        false,
    )
}

/// Constraint 7 at block `i`: an attention-grabbing effect.
pub open spec fn attention_violation(i: usize) -> ViolationView {
    finding(
        7,
        "Attention-grabbing effect"@,
        "Wording suggests blinking/countdown-style attention capture."@,
        "Remove attention-grabbing effects and keep a factual tone."@,
        Some(i),
        false,
    )
}

/// Constraint 7 at block `i`: urgency without a stated basis.
pub open spec fn urgency_violation(i: usize) -> ViolationView {
    finding(
        7,
        "Urgency/scarcity without evidence"@,
        "Urgency/scarcity wording appears without deadline or stock basis."@,
        "State deadline/stock conditions and update basis, or remove urgency wording."@,
        Some(i),
        false,
    )
}

/// Constraint 1 for one block: preselection wording (in the text or the
/// source) together with an action word.
pub open spec fn preselect_for(b: BlockView) -> Seq<ViolationView> {
    if (contains_any(lc_text(b), preselect_terms()) || contains_any(lc_raw(b), preselect_terms()))
        && contains_any(lc_text(b), action_terms()) {
        seq![preselect_violation(b.index)]
    } else {
        Seq::empty()
    }
}

/// Constraint 3 for one block: stopping mentioned with an extra step.
pub open spec fn cancel_for(b: BlockView) -> Seq<ViolationView> {
    if contains_any(lc_text(b), cancel_terms()) && contains_any(lc_text(b), cancel_difficulty_terms()) {
        seq![cancel_hard_violation(b.index)]
    } else {
        Seq::empty()
    }
}

/// Constraint 4 for one block: an unfavourable term together with a deferral.
pub open spec fn hidden_for(b: BlockView) -> Seq<ViolationView> {
    if contains_any(lc_text(b), adverse_terms()) && contains_any(lc_text(b), deferral_terms()) {
        seq![hidden_violation(b.index)]
    } else {
        Seq::empty()
    }
}

/// Constraint 5 for one block: at least two of fact, claim and call to action.
pub open spec fn mixed_for(b: BlockView) -> Seq<ViolationView> {
    let f = contains_any(lc_text(b), fact_terms()) || has_number_spec(lc_text(b));
    let c = contains_any(lc_text(b), claim_terms());
    let a = contains_any(lc_text(b), cta_terms());
    if (f && c) || (f && a) || (c && a) {
        seq![mixed_violation(b.index)]
    } else {
        Seq::empty()
    }
}

/// Constraint 6 for one block: a comparison without evidence.
pub open spec fn comparison_for(b: BlockView) -> Seq<ViolationView> {
    if contains_any(lc_text(b), comparison_terms()) && !contains_any(
        lc_text(b),
        comparison_evidence_terms(),
    ) {
        seq![comparison_violation(b.index)]
    } else {
        Seq::empty()
    }
}

/// Constraint 7 for one block: an attention-grabbing effect, then urgency
/// without a deadline, stock basis or time reference.
pub open spec fn urgency_for(b: BlockView) -> Seq<ViolationView> {
    (if contains_any(lc_text(b), attention_grab_terms()) {
        seq![attention_violation(b.index)]
    } else {
        Seq::empty()
    }) + (if contains_any(lc_text(b), urgency_terms()) && !(contains_any(
        lc_text(b),
        urgency_evidence_terms(),
    ) || has_time_hint(lc_text(b))) {
        seq![urgency_violation(b.index)]
    } else {
        Seq::empty()
    })
}

/// The block-level findings of `preselect_for`, block by block.
pub open spec fn preselect_found(bs: Seq<BlockView>) -> Seq<ViolationView>
    decreases bs.len(),
{
    if bs.len() == 0 {
        Seq::empty()
    } else {
        preselect_found(bs.drop_last()) + preselect_for(bs.last())
    }
}

/// The block-level findings of `cancel_for`, block by block.
pub open spec fn cancel_found(bs: Seq<BlockView>) -> Seq<ViolationView>
    decreases bs.len(),
{
    if bs.len() == 0 {
        Seq::empty()
    } else {
        cancel_found(bs.drop_last()) + cancel_for(bs.last())
    }
}

/// The block-level findings of `hidden_for`, block by block.
pub open spec fn hidden_found(bs: Seq<BlockView>) -> Seq<ViolationView>
    decreases bs.len(),
{
    if bs.len() == 0 {
        Seq::empty()
    } else {
        hidden_found(bs.drop_last()) + hidden_for(bs.last())
    }
}

/// The block-level findings of `mixed_for`, block by block.
pub open spec fn mixed_found(bs: Seq<BlockView>) -> Seq<ViolationView>
    decreases bs.len(),
{
    if bs.len() == 0 {
        Seq::empty()
    } else {
        mixed_found(bs.drop_last()) + mixed_for(bs.last())
    }
}

/// The block-level findings of `comparison_for`, block by block.
pub open spec fn comparison_found(bs: Seq<BlockView>) -> Seq<ViolationView>
    decreases bs.len(),
{
    if bs.len() == 0 {
        Seq::empty()
    } else {
        comparison_found(bs.drop_last()) + comparison_for(bs.last())
    }
}

/// The block-level findings of `urgency_for`, block by block.
pub open spec fn urgency_found(bs: Seq<BlockView>) -> Seq<ViolationView>
    decreases bs.len(),
{
    if bs.len() == 0 {
        Seq::empty()
    } else {
        urgency_found(bs.drop_last()) + urgency_for(bs.last())
    }
}

/// The list a block belongs to, if it is a list item.
pub open spec fn list_id_of(b: BlockView) -> Option<usize> {
    match b.kind {
        KindView::ListItem { list_id, .. } => Some(list_id),
        _ => None,
    }
}

/// The lists of `bs`, each once, in order of their first item.
pub open spec fn list_ids(bs: Seq<BlockView>) -> Seq<usize>
    decreases bs.len(),
{
    if bs.len() == 0 {
        Seq::empty()
    } else {
        let prev = list_ids(bs.drop_last());
        match list_id_of(bs.last()) {
            Some(id) => if prev.contains(id) {
                prev
            } else {
                prev.push(id)
            },
            None => prev,
        }
    }
}

/// Number of items of list `id` in `bs`.
pub open spec fn count_items(bs: Seq<BlockView>, id: usize) -> nat
    decreases bs.len(),
{
    if bs.len() == 0 {
        0
    } else {
        count_items(bs.drop_last(), id) + if list_id_of(bs.last()) == Some(id) {
            1nat
        } else {
            0nat
        }
    }
}

/// An option stands out: a preference word, or emphasis in its source.
pub open spec fn stands_out(b: BlockView) -> bool {
    contains_any(lc_text(b), preference_terms()) || has_emphasis(b.raw)
}

/// The position of the first item of list `id` that stands out.
pub open spec fn first_standing_out(bs: Seq<BlockView>, id: usize) -> Option<usize>
    decreases bs.len(),
{
    if bs.len() == 0 {
        None
    } else {
        match first_standing_out(bs.drop_last(), id) {
            Some(i) => Some(i),
            None => if list_id_of(bs.last()) == Some(id) && stands_out(bs.last()) {
                Some(bs.last().index)
            } else {
                None
            },
        }
    }
}

/// Constraint 2 for list `id`: a list of two or more options, one of which
/// stands out (the first such is reported).
pub open spec fn visual_for_list(bs: Seq<BlockView>, id: usize) -> Seq<ViolationView> {
    if count_items(bs, id) >= 2 && first_standing_out(bs, id) is Some {
        seq![visual_violation(first_standing_out(bs, id)->0)]
    } else {
        Seq::empty()
    }
}

/// Constraint 2 for the lists `ids`, in that order.
pub open spec fn visual_for_lists(bs: Seq<BlockView>, ids: Seq<usize>) -> Seq<ViolationView>
    decreases ids.len(),
{
    if ids.len() == 0 {
        Seq::empty()
    } else {
        visual_for_lists(bs, ids.drop_last()) + visual_for_list(bs, ids.last())
    }
}

/// Constraint 2 for every list of the page.
pub open spec fn visual_found(bs: Seq<BlockView>) -> Seq<ViolationView> {
    visual_for_lists(bs, list_ids(bs))
}

/// Some block has a call to action.
pub open spec fn any_cta(bs: Seq<BlockView>) -> bool {
    exists|i: int| 0 <= i < bs.len() && contains_any(lc_text(#[trigger] bs[i]), cta_terms())
}

/// Some block mentions stopping.
pub open spec fn any_cancel(bs: Seq<BlockView>) -> bool {
    exists|i: int| 0 <= i < bs.len() && contains_any(lc_text(#[trigger] bs[i]), cancel_terms())
}

/// Constraint 3: the block-level findings, then the page-level one when
/// there is a way to start and none to stop.
pub open spec fn cancel_total(bs: Seq<BlockView>) -> Seq<ViolationView> {
    cancel_found(bs) + if any_cta(bs) && !any_cancel(bs) {
        seq![cancel_missing_violation()]
    } else {
        Seq::empty()
    }
}

/// All findings, detector by detector (constraints 1 to 7).
pub open spec fn detected(bs: Seq<BlockView>) -> Seq<ViolationView> {
    preselect_found(bs) + visual_found(bs) + cancel_total(bs) + hidden_found(bs) + mixed_found(bs)
        + comparison_found(bs) + urgency_found(bs)
}

/// The order of findings: by constraint, then by block (a finding about the
/// whole page first).
pub open spec fn violation_key(v: ViolationView) -> int {
    v.constraint_id as int * (usize::MAX as int + 2) + match v.block_index {
        None => 0,
        Some(i) => i as int + 1,
    }
}

/// `violation_key` as a function value.
pub open spec fn violation_key_fn() -> spec_fn(ViolationView) -> int {
    |v: ViolationView| violation_key(v)
}

/// The report that `analyze_document` gives for blocks `bs`.
pub open spec fn analysis_of(bs: Seq<BlockView>) -> AnalysisReportView {
    AnalysisReportView {
        violations: sort_by(detected(bs), violation_key_fn()),
        assumptions: assumption_texts(),
    }
}

// ---------------------------------------------------------------------------
// Executable detectors
// ---------------------------------------------------------------------------

/// A block with its lowercased text and source.
struct NormalizedBlock<'a> {
    block: &'a Block,
    text: Vec<char>,
    raw: Vec<char>,
    source: Vec<char>,
}

impl<'a> NormalizedBlock<'a> {
    /// The lowercased copies belong to the block.
    spec fn wf(&self) -> bool {
        &&& self.text@ == lowercase(self.block.text@)
        &&& self.raw@ == lowercase(self.block.raw@)
        &&& self.source@ == self.block.raw@
    }

    fn new(block: &'a Block) -> (r: Self)
        ensures
            r.wf(),
            r.block == block,
    {
        Self {
            block,
            text: chars_of(to_lowercase(block.text.as_str()).as_str()),
            raw: chars_of(to_lowercase(block.raw.as_str()).as_str()),
            source: chars_of(block.raw.as_str()),
        }
    }
}

/// Every normalized block is well formed.
spec fn all_wf(ns: Seq<NormalizedBlock>) -> bool {
    forall|i: int| 0 <= i < ns.len() ==> (#[trigger] ns[i]).wf()
}

/// The blocks behind the normalized blocks.
spec fn originals(ns: Seq<NormalizedBlock>) -> Seq<BlockView> {
    ns.map_values(|n: NormalizedBlock| n.block@)
}

/// Appends the findings of `preselect_for` for every block.
fn detect_preselect(blocks: &Vec<NormalizedBlock>, config: &AnalysisConfig, out: &mut Vec<Violation>)
    requires
        config.wf(),
        all_wf(blocks@),
    ensures
        violation_views(final(out)@) == violation_views(old(out)@) + preselect_found(originals(blocks@)),
{
    let ghost start = violation_views(out@);
    let ghost bs = originals(blocks@);
    let mut i: usize = 0;
    while i < blocks.len()
        invariant
            i <= blocks@.len(),
            config.wf(),
            all_wf(blocks@),
            bs == originals(blocks@),
            violation_views(out@) == start + preselect_found(bs.take(i as int)),
        decreases blocks@.len() - i,
    {
        let nb = &blocks[i];
        assert(nb.wf());
        let ghost before = violation_views(out@);
        let has_preselect = contains_any_of(&nb.text, &config.preselect_terms) || contains_any_of(
            &nb.raw,
            &config.preselect_terms,
        );
        let has_action = contains_any_of(&nb.text, &config.action_terms);
        if has_preselect && has_action {
            out.push(make_violation(
                1,
                "Default selection is implied",
                "Wording suggests preselected or auto-consent behavior.",
                "State that the initial state is unselected and only confirms after explicit action.",
                Some(nb.block.index),
                false,
            ));
        }
        assert(bs.take(i + 1).drop_last() =~= bs.take(i as int));
        assert(bs[i as int] == nb.block@);
        assert(violation_views(out@) =~= before + preselect_for(nb.block@));
        i = i + 1;
    }
    assert(bs.take(blocks@.len() as int) =~= bs);
}


/// Appends the findings of `hidden_for` for every block.
fn detect_hidden_disadvantages(blocks: &Vec<NormalizedBlock>, config: &AnalysisConfig, out: &mut Vec<Violation>)
    requires
        config.wf(),
        all_wf(blocks@),
    ensures
        violation_views(final(out)@) == violation_views(old(out)@) + hidden_found(originals(blocks@)),
{
    let ghost start = violation_views(out@);
    let ghost bs = originals(blocks@);
    let mut i: usize = 0;
    while i < blocks.len()
        invariant
            i <= blocks@.len(),
            config.wf(),
            all_wf(blocks@),
            bs == originals(blocks@),
            violation_views(out@) == start + hidden_found(bs.take(i as int)),
        decreases blocks@.len() - i,
    {
        let nb = &blocks[i];
        assert(nb.wf());
        let ghost before = violation_views(out@);
        let has_adverse = contains_any_of(&nb.text, &config.adverse_terms);
        let has_deferral = contains_any_of(&nb.text, &config.deferral_terms);
        if has_adverse && has_deferral {
            out.push(make_violation(
                4,
                "Unfavorable info deferred or off-page",
                "Pricing/conditions appear to be deferred to another page or later.",
                "Place pricing, conditions, and limits alongside the main description.",
                Some(nb.block.index),
                false,
            ));
        }
        assert(bs.take(i + 1).drop_last() =~= bs.take(i as int));
        assert(bs[i as int] == nb.block@);
        assert(violation_views(out@) =~= before + hidden_for(nb.block@));
        i = i + 1;
    }
    assert(bs.take(blocks@.len() as int) =~= bs);
}


/// Appends the findings of `mixed_for` for every block.
fn detect_mixed_meaning(blocks: &Vec<NormalizedBlock>, config: &AnalysisConfig, out: &mut Vec<Violation>)
    requires
        config.wf(),
        all_wf(blocks@),
    ensures
        violation_views(final(out)@) == violation_views(old(out)@) + mixed_found(originals(blocks@)),
{
    let ghost start = violation_views(out@);
    let ghost bs = originals(blocks@);
    let mut i: usize = 0;
    while i < blocks.len()
        invariant
            i <= blocks@.len(),
            config.wf(),
            all_wf(blocks@),
            bs == originals(blocks@),
            violation_views(out@) == start + mixed_found(bs.take(i as int)),
        decreases blocks@.len() - i,
    {
        let nb = &blocks[i];
        assert(nb.wf());
        let ghost before = violation_views(out@);
        let has_fact = contains_any_of(&nb.text, &config.fact_terms) || has_number(&nb.text);
        let has_claim = contains_any_of(&nb.text, &config.claim_terms);
        let has_cta = contains_any_of(&nb.text, &config.cta_terms);
        let mut count: usize = 0;
        if has_fact {
            count = count + 1;
        }
        if has_claim {
            count = count + 1;
        }
        if has_cta {
            count = count + 1;
        }
        if count >= 2 {
            out.push(make_violation(
                5,
                "FACT/CLAIM/CTA mixed",
                "Multiple meaning types appear in the same block.",
                "Separate facts, claims, and calls-to-action into distinct blocks.",
                Some(nb.block.index),
                false,
            ));
        }
        assert(bs.take(i + 1).drop_last() =~= bs.take(i as int));
        assert(bs[i as int] == nb.block@);
        assert(violation_views(out@) =~= before + mixed_for(nb.block@));
        i = i + 1;
    }
    assert(bs.take(blocks@.len() as int) =~= bs);
}


/// Appends the findings of `comparison_for` for every block.
fn detect_unsubstantiated_comparison(blocks: &Vec<NormalizedBlock>, config: &AnalysisConfig, out: &mut Vec<Violation>)
    requires
        config.wf(),
        all_wf(blocks@),
    ensures
        violation_views(final(out)@) == violation_views(old(out)@) + comparison_found(originals(blocks@)),
{
    let ghost start = violation_views(out@);
    let ghost bs = originals(blocks@);
    let mut i: usize = 0;
    while i < blocks.len()
        invariant
            i <= blocks@.len(),
            config.wf(),
            all_wf(blocks@),
            bs == originals(blocks@),
            violation_views(out@) == start + comparison_found(bs.take(i as int)),
        decreases blocks@.len() - i,
    {
        let nb = &blocks[i];
        assert(nb.wf());
        let ghost before = violation_views(out@);
        if contains_any_of(&nb.text, &config.comparison_terms) {
            let has_evidence = contains_any_of(&nb.text, &config.comparison_evidence_terms);
            if !has_evidence {
                out.push(make_violation(
                6,
                "Comparison without evidence",
                "Comparative wording appears without target, conditions, or evidence.",
                "Add comparison target, conditions, time, and evidence, or remove the comparison.",
                Some(nb.block.index),
                false,
            ));
            }
        }
        assert(bs.take(i + 1).drop_last() =~= bs.take(i as int));
        assert(bs[i as int] == nb.block@);
        assert(violation_views(out@) =~= before + comparison_for(nb.block@));
        i = i + 1;
    }
    assert(bs.take(blocks@.len() as int) =~= bs);
}


/// Appends the findings of `urgency_for` for every block.
fn detect_unsubstantiated_urgency(blocks: &Vec<NormalizedBlock>, config: &AnalysisConfig, out: &mut Vec<Violation>)
    requires
        config.wf(),
        all_wf(blocks@),
    ensures
        violation_views(final(out)@) == violation_views(old(out)@) + urgency_found(originals(blocks@)),
{
    let ghost start = violation_views(out@);
    let ghost bs = originals(blocks@);
    let mut i: usize = 0;
    while i < blocks.len()
        invariant
            i <= blocks@.len(),
            config.wf(),
            all_wf(blocks@),
            bs == originals(blocks@),
            violation_views(out@) == start + urgency_found(bs.take(i as int)),
        decreases blocks@.len() - i,
    {
        let nb = &blocks[i];
        assert(nb.wf());
        let ghost before = violation_views(out@);
        if contains_any_of(&nb.text, &config.attention_grab_terms) {
            out.push(make_violation(
                7,
                "Attention-grabbing effect",
                "Wording suggests blinking/countdown-style attention capture.",
                "Remove attention-grabbing effects and keep a factual tone.",
                Some(nb.block.index),
                false,
            ));
        }
        if contains_any_of(&nb.text, &config.urgency_terms) {
            let has_evidence = contains_any_of(&nb.text, &config.urgency_evidence_terms)
                || has_numeric_time_hint(&nb.text, &config.time_units);
            if !has_evidence {
                out.push(make_violation(
                7,
                "Urgency/scarcity without evidence",
                "Urgency/scarcity wording appears without deadline or stock basis.",
                "State deadline/stock conditions and update basis, or remove urgency wording.",
                Some(nb.block.index),
                false,
            ));
            }
        }
        assert(bs.take(i + 1).drop_last() =~= bs.take(i as int));
        assert(bs[i as int] == nb.block@);
        assert(violation_views(out@) =~= before + urgency_for(nb.block@));
        i = i + 1;
    }
    assert(bs.take(blocks@.len() as int) =~= bs);
}

/// The list a block belongs to, if it is a list item.
fn list_id_exec(b: &Block) -> (r: Option<usize>)
    ensures
        r == list_id_of(b@),
{
    match &b.kind {
        BlockKind::ListItem { list_id, .. } => Some(*list_id),
        _ => None,
    }
}

/// Whether `v` holds `x`.
fn holds(v: &Vec<usize>, x: usize) -> (r: bool)
    ensures
        r == v@.contains(x),
{
    let mut i: usize = 0;
    while i < v.len()
        invariant
            i <= v@.len(),
            forall|j: int| 0 <= j < i ==> v@[j] != x,
        decreases v@.len() - i,
    {
        if v[i] == x {
            assert(v@[i as int] == x);
            return true;
        }
        i = i + 1;
    }
    false
}

/// For list `id`: its number of items and the position of the first item
/// that stands out.
fn scan_list(blocks: &Vec<NormalizedBlock>, config: &AnalysisConfig, id: usize) -> (r: (
    usize,
    Option<usize>,
))
    requires
        config.wf(),
        all_wf(blocks@),
    ensures
        r.0 == count_items(originals(blocks@), id),
        r.1 == first_standing_out(originals(blocks@), id),
{
    let ghost bs = originals(blocks@);
    let mut count: usize = 0;
    let mut first: Option<usize> = None;
    let mut i: usize = 0;
    while i < blocks.len()
        invariant
            i <= blocks@.len(),
            config.wf(),
            all_wf(blocks@),
            bs == originals(blocks@),
            count == count_items(bs.take(i as int), id),
            count <= i,
            first == first_standing_out(bs.take(i as int), id),
        decreases blocks@.len() - i,
    {
        let nb = &blocks[i];
        assert(nb.wf());
        assert(bs.take(i + 1).drop_last() =~= bs.take(i as int));
        assert(bs[i as int] == nb.block@);
        if list_id_exec(nb.block) == Some(id) {
            count = count + 1;
            if first.is_none() {
                if contains_any_of(&nb.text, &config.preference_terms) || has_emphasis_marker(
                    &nb.source,
                ) {
                    first = Some(nb.block.index);
                }
            }
        }
        i = i + 1;
    }
    assert(bs.take(blocks@.len() as int) =~= bs);
    (count, first)
}

/// Appends the findings for constraint 2, list by list.
fn detect_visual_gap(blocks: &Vec<NormalizedBlock>, config: &AnalysisConfig, out: &mut Vec<Violation>)
    requires
        config.wf(),
        all_wf(blocks@),
    ensures
        violation_views(final(out)@) == violation_views(old(out)@) + visual_found(originals(blocks@)),
{
    let ghost bs = originals(blocks@);
    let mut ids: Vec<usize> = Vec::new();
    let mut i: usize = 0;
    while i < blocks.len()
        invariant
            i <= blocks@.len(),
            bs == originals(blocks@),
            ids@ == list_ids(bs.take(i as int)),
        decreases blocks@.len() - i,
    {
        assert(bs.take(i + 1).drop_last() =~= bs.take(i as int));
        assert(bs[i as int] == blocks@[i as int].block@);
        if let Some(id) = list_id_exec(blocks[i].block) {
            if !holds(&ids, id) {
                ids.push(id);
            }
        }
        i = i + 1;
    }
    assert(bs.take(blocks@.len() as int) =~= bs);
    let ghost start = violation_views(out@);
    let mut k: usize = 0;
    while k < ids.len()
        invariant
            k <= ids@.len(),
            config.wf(),
            all_wf(blocks@),
            bs == originals(blocks@),
            ids@ == list_ids(bs),
            violation_views(out@) == start + visual_for_lists(bs, ids@.take(k as int)),
        decreases ids@.len() - k,
    {
        let id = ids[k];
        let ghost before = violation_views(out@);
        let (count, first) = scan_list(blocks, config, id);
        if count >= 2 {
            if let Some(ix) = first {
                out.push(
                    make_violation(
                        2,
                        "Possible visual disparity between options",
                        "Within the same list, preference words or emphasis markers are used.",
                        "Keep equivalent options at the same emphasis level and remove highlight words.",
                        Some(ix),
                        true,
                    ),
                );
            }
        }
        assert(ids@.take(k + 1).drop_last() =~= ids@.take(k as int));
        assert(violation_views(out@) =~= before + visual_for_list(bs, id));
        k = k + 1;
    }
    assert(ids@.take(ids@.len() as int) =~= ids@);
}

/// Appends the findings for constraint 3.
fn detect_cancel_hardness(
    blocks: &Vec<NormalizedBlock>,
    config: &AnalysisConfig,
    out: &mut Vec<Violation>,
)
    requires
        config.wf(),
        all_wf(blocks@),
    ensures
        violation_views(final(out)@) == violation_views(old(out)@) + cancel_total(originals(blocks@)),
{
    let ghost start = violation_views(out@);
    let ghost bs = originals(blocks@);
    let mut has_start_cta = false;
    let mut has_cancel = false;
    let mut i: usize = 0;
    while i < blocks.len()
        invariant
            i <= blocks@.len(),
            config.wf(),
            all_wf(blocks@),
            bs == originals(blocks@),
            violation_views(out@) == start + cancel_found(bs.take(i as int)),
            has_start_cta == any_cta(bs.take(i as int)),
            has_cancel == any_cancel(bs.take(i as int)),
        decreases blocks@.len() - i,
    {
        let nb = &blocks[i];
        assert(nb.wf());
        let ghost before = violation_views(out@);
        let ghost pre = bs.take(i as int);
        let ghost post = bs.take(i + 1);
        assert(post.drop_last() =~= pre);
        assert(bs[i as int] == nb.block@);
        assert(post[i as int] == nb.block@);
        if contains_any_of(&nb.text, &config.cta_terms) {
            has_start_cta = true;
        }
        let cancel_here = contains_any_of(&nb.text, &config.cancel_terms);
        if cancel_here {
            has_cancel = true;
            if contains_any_of(&nb.text, &config.cancel_difficulty_terms) {
                out.push(
                    make_violation(
                        3,
                        "Stopping action may be harder",
                        "Cancellation/decline mentions extra steps or separate pages.",
                        "Ensure stopping is available on the same screen with no more steps than starting.",
                        Some(nb.block.index),
                        false,
                    ),
                );
            }
        }
        assert(violation_views(out@) =~= before + cancel_for(nb.block@));
        assert(has_start_cta == any_cta(post)) by {
            if any_cta(post) && !any_cta(pre) {
                let j = choose|j: int| 0 <= j < post.len() && contains_any(lc_text(#[trigger] post[j]), cta_terms());
                if j < i {
                    assert(pre[j] == post[j]);
                }
            }
            if any_cta(pre) {
                let j = choose|j: int| 0 <= j < pre.len() && contains_any(lc_text(#[trigger] pre[j]), cta_terms());
                assert(pre[j] == post[j]);
            }
        }
        assert(has_cancel == any_cancel(post)) by {
            if any_cancel(post) && !any_cancel(pre) {
                let j = choose|j: int| 0 <= j < post.len() && contains_any(lc_text(#[trigger] post[j]), cancel_terms());
                if j < i {
                    assert(pre[j] == post[j]);
                }
            }
            if any_cancel(pre) {
                let j = choose|j: int| 0 <= j < pre.len() && contains_any(lc_text(#[trigger] pre[j]), cancel_terms());
                assert(pre[j] == post[j]);
            }
        }
        i = i + 1;
    }
    assert(bs.take(blocks@.len() as int) =~= bs);
    let ghost before = violation_views(out@);
    assert(before == start + cancel_found(bs));
    if has_start_cta && !has_cancel {
        out.push(
            make_violation(
                3,
                "Possible absence of stop/decline path",
                "Start/subscribe CTA exists without any stop/decline info on the same screen.",
                "Describe how to stop/decline on the same screen.",
                None,
                true,
            ),
        );
        assert(violation_views(out@) =~= before.push(cancel_missing_violation()));
        assert(violation_views(out@) =~= start + cancel_total(bs));
    } else {
        assert(violation_views(out@) =~= start + cancel_total(bs));
    }
}

// ---------------------------------------------------------------------------
// Ordering the findings
// ---------------------------------------------------------------------------

/// Comparing keys compares constraints first, then the block part.
proof fn lemma_key_order(c1: int, o1: int, c2: int, o2: int, k: int)
    requires
        0 <= o1 < k,
        0 <= o2 < k,
        c1 != c2,
    ensures
        (c1 * k + o1 < c2 * k + o2) == (c1 < c2),
{
    if c1 < c2 {
        assert(c1 * k + k <= c2 * k) by (nonlinear_arith)
            requires
                c1 < c2,
                0 < k,
        ;
    } else {
        assert(c2 * k + k <= c1 * k) by (nonlinear_arith)
            requires
                c2 < c1,
                0 < k,
        ;
    }
}

/// Whether `a` comes strictly before `b` in the order of findings.
fn key_less(a: &Violation, b: &Violation) -> (r: bool)
    ensures
        r == (violation_key(a@) < violation_key(b@)),
{
    let ghost oa: int = match a.block_index {
        None => 0,
        Some(i) => i as int + 1,
    };
    let ghost ob: int = match b.block_index {
        None => 0,
        Some(i) => i as int + 1,
    };
    if a.constraint_id != b.constraint_id {
        proof {
            lemma_key_order(a.constraint_id as int, oa, b.constraint_id as int, ob, usize::MAX as int + 2);
        }
        a.constraint_id < b.constraint_id
    } else {
        match (a.block_index, b.block_index) {
            (None, None) => false,
            (None, Some(_)) => true,
            (Some(_), None) => false,
            (Some(x), Some(y)) => x < y,
        }
    }
}

/// Orders findings stably by constraint, then by block.
fn sort_violations(v: Vec<Violation>) -> (r: Vec<Violation>)
    ensures
        violation_views(r@) == sort_by(violation_views(v@), violation_key_fn()),
{
    let ghost orig = violation_views(v@);
    let mut rest = v;
    let mut out: Vec<Violation> = Vec::new();
    let ghost mut n: int = 0;
    assert(orig.take(0) =~= Seq::<ViolationView>::empty());
    assert(violation_views(out@) =~= Seq::<ViolationView>::empty());
    assert(orig.skip(0) =~= orig);
    while rest.len() > 0
        invariant
            0 <= n <= orig.len(),
            violation_views(rest@) == orig.skip(n),
            violation_views(out@) == sort_by(orig.take(n), violation_key_fn()),
        decreases rest@.len(),
    {
        let ghost rest_before = rest@;
        let x = rest.remove(0);
        assert(rest@ =~= rest_before.subrange(1, rest_before.len() as int));
        assert(violation_views(rest@) =~= violation_views(rest_before).subrange(
            1,
            rest_before.len() as int,
        ));
        assert(orig.skip(n).subrange(1, orig.skip(n).len() as int) =~= orig.skip(n + 1));
        assert(x == rest_before[0]);
        assert(violation_views(rest_before)[0] == rest_before[0]@);
        assert(x@ == orig[n]) by {
            assert(violation_views(rest_before)[0] == orig.skip(n)[0]);
        }
        let ghost sorted = violation_views(out@);
        proof {
            lemma_insert_by_splice(sorted, x@, violation_key_fn());
        }
        let mut p: usize = 0;
        assert(sorted.skip(0) =~= sorted);
        while p < out.len() && !key_less(&x, &out[p])
            invariant
                p <= out@.len(),
                sorted == violation_views(out@),
                insert_pos(sorted, x@, violation_key_fn()) == p + insert_pos(
                    sorted.skip(p as int),
                    x@,
                    violation_key_fn(),
                ),
            decreases out@.len() - p,
        {
            assert(sorted.skip(p as int)[0] == out@[p as int]@);
            assert(sorted.skip(p as int).drop_first() =~= sorted.skip(p + 1));
            p = p + 1;
        }
        if p < out.len() {
            assert(sorted.skip(p as int)[0] == out@[p as int]@);
        }
        assert(p == insert_pos(sorted, x@, violation_key_fn()));
        out.insert(p, x);
        assert(violation_views(out@) =~= sorted.take(p as int).push(x@) + sorted.skip(p as int));
        assert(orig.take(n + 1).drop_last() =~= orig.take(n));
        assert(orig.take(n + 1).last() == orig[n]);
        proof {
            n = n + 1;
        }
    }
    assert(orig.take(n) =~= orig) by {
        assert(orig.skip(n).len() == 0);
    }
    out
}

// ---------------------------------------------------------------------------
// The analysis
// ---------------------------------------------------------------------------

/// Analyses a document: runs the detectors for constraints 1 to 7 and orders
/// the findings by constraint, then by block, keeping the detectors' order
/// among findings with the same constraint and block.
pub fn analyze_document(doc: &Document) -> (r: AnalysisReport)
    ensures
        r@ == analysis_of(doc@.blocks),
        ordered_by(r@.violations, violation_key_fn()),
        r@.violations.to_multiset() == detected(doc@.blocks).to_multiset(),
        all_refer(r@.violations, doc@.blocks),
{
    let config = AnalysisConfig::v0();
    let mut assumptions: Vec<String> = Vec::new();
    let mut j: usize = 0;
    while j < config.assumptions.len()
        invariant
            j <= config.assumptions@.len(),
            string_views(assumptions@) == lit_views(config.assumptions@.take(j as int)),
        decreases config.assumptions@.len() - j,
    {
        let ghost before = string_views(assumptions@);
        assumptions.push(owned(config.assumptions[j]));
        assert(config.assumptions@.take(j + 1).drop_last() =~= config.assumptions@.take(j as int));
        assert(string_views(assumptions@) =~= before.push(config.assumptions@[j as int]@));
        assert(lit_views(config.assumptions@.take(j + 1)) =~= lit_views(config.assumptions@.take(j as int)).push(config.assumptions@[j as int]@));
        j = j + 1;
    }
    assert(config.assumptions@.take(config.assumptions@.len() as int) =~= config.assumptions@);
    let mut report = AnalysisReport::new(assumptions);
    let mut normalized: Vec<NormalizedBlock> = Vec::new();
    let mut i: usize = 0;
    while i < doc.blocks.len()
        invariant
            i <= doc.blocks@.len(),
            all_wf(normalized@),
            originals(normalized@) == block_views(doc.blocks@).take(i as int),
        decreases doc.blocks@.len() - i,
    {
        let ghost before = originals(normalized@);
        normalized.push(NormalizedBlock::new(&doc.blocks[i]));
        assert(originals(normalized@) =~= before.push(doc.blocks@[i as int]@));
        assert(block_views(doc.blocks@).take(i + 1) =~= block_views(doc.blocks@).take(i as int).push(doc.blocks@[i as int]@));
        i = i + 1;
    }
    assert(block_views(doc.blocks@).take(doc.blocks@.len() as int) =~= block_views(doc.blocks@));
    let ghost bs = doc@.blocks;
    let mut found: Vec<Violation> = Vec::new();
    assert(violation_views(found@) =~= Seq::<ViolationView>::empty());
    detect_preselect(&normalized, &config, &mut found);
    detect_visual_gap(&normalized, &config, &mut found);
    detect_cancel_hardness(&normalized, &config, &mut found);
    detect_hidden_disadvantages(&normalized, &config, &mut found);
    detect_mixed_meaning(&normalized, &config, &mut found);
    detect_unsubstantiated_comparison(&normalized, &config, &mut found);
    detect_unsubstantiated_urgency(&normalized, &config, &mut found);
    assert(violation_views(found@) =~= detected(bs));
    report.violations = sort_violations(found);
    proof {
        lemma_sort_by(detected(bs), violation_key_fn());
        law_findings_refer_to_blocks(bs);
    }
    report
}

// ---------------------------------------------------------------------------
// What the findings refer to
// ---------------------------------------------------------------------------

/// Some block of `bs` has index `i`.
pub open spec fn names_block(bs: Seq<BlockView>, i: usize) -> bool {
    exists|j: int| 0 <= j < bs.len() && (#[trigger] bs[j]).index == i
}

/// A finding names one of the seven constraints; a block-level finding
/// names a block of `bs` by its index, and the one page-level finding is
/// about constraint 3.
pub open spec fn refers_within(v: ViolationView, bs: Seq<BlockView>) -> bool {
    &&& 1 <= v.constraint_id <= 7
    &&& match v.block_index {
        Some(i) => names_block(bs, i),
        None => v.constraint_id == 3,
    }
}

/// Every finding of `vs` refers within `bs`.
pub open spec fn all_refer(vs: Seq<ViolationView>, bs: Seq<BlockView>) -> bool {
    forall|k: int| 0 <= k < vs.len() ==> refers_within(#[trigger] vs[k], bs)
}

proof fn lemma_all_concat(a: Seq<ViolationView>, b: Seq<ViolationView>, bs: Seq<BlockView>)
    requires
        all_refer(a, bs),
        all_refer(b, bs),
    ensures
        all_refer(a + b, bs),
{
    assert forall|k: int| 0 <= k < (a + b).len() implies refers_within(#[trigger] (a + b)[k], bs) by {
        if k < a.len() {
            assert((a + b)[k] == a[k]);
        } else {
            assert((a + b)[k] == b[k - a.len()]);
        }
    }
}

proof fn lemma_all_widen(vs: Seq<ViolationView>, bs: Seq<BlockView>)
    requires
        bs.len() > 0,
        all_refer(vs, bs.drop_last()),
    ensures
        all_refer(vs, bs),
{
    assert forall|k: int| 0 <= k < vs.len() implies refers_within(#[trigger] vs[k], bs) by {
        assert(refers_within(vs[k], bs.drop_last()));
        if let Some(i) = vs[k].block_index {
            let j = choose|j: int| 0 <= j < bs.drop_last().len() && (#[trigger] bs.drop_last()[j]).index == i;
            assert(bs[j] == bs.drop_last()[j]);
        }
    }
}

/// The findings about the last block refer within `bs`.
proof fn lemma_last_block_refers(vs: Seq<ViolationView>, bs: Seq<BlockView>)
    requires
        bs.len() > 0,
        forall|k: int| 0 <= k < vs.len() ==> 1 <= (#[trigger] vs[k]).constraint_id <= 7
            && vs[k].block_index == Some(bs.last().index),
    ensures
        all_refer(vs, bs),
{
    assert forall|k: int| 0 <= k < vs.len() implies refers_within(#[trigger] vs[k], bs) by {
        assert(bs[bs.len() - 1].index == bs.last().index);
    }
}

proof fn lemma_preselect_refers(bs: Seq<BlockView>)
    ensures
        all_refer(preselect_found(bs), bs),
    decreases bs.len(),
{
    if bs.len() > 0 {
        lemma_preselect_refers(bs.drop_last());
        lemma_all_widen(preselect_found(bs.drop_last()), bs);
        lemma_last_block_refers(preselect_for(bs.last()), bs);
        lemma_all_concat(preselect_found(bs.drop_last()), preselect_for(bs.last()), bs);
    }
}

proof fn lemma_cancel_refers(bs: Seq<BlockView>)
    ensures
        all_refer(cancel_found(bs), bs),
    decreases bs.len(),
{
    if bs.len() > 0 {
        lemma_cancel_refers(bs.drop_last());
        lemma_all_widen(cancel_found(bs.drop_last()), bs);
        lemma_last_block_refers(cancel_for(bs.last()), bs);
        lemma_all_concat(cancel_found(bs.drop_last()), cancel_for(bs.last()), bs);
    }
}

proof fn lemma_hidden_refers(bs: Seq<BlockView>)
    ensures
        all_refer(hidden_found(bs), bs),
    decreases bs.len(),
{
    if bs.len() > 0 {
        lemma_hidden_refers(bs.drop_last());
        lemma_all_widen(hidden_found(bs.drop_last()), bs);
        lemma_last_block_refers(hidden_for(bs.last()), bs);
        lemma_all_concat(hidden_found(bs.drop_last()), hidden_for(bs.last()), bs);
    }
}

proof fn lemma_mixed_refers(bs: Seq<BlockView>)
    ensures
        all_refer(mixed_found(bs), bs),
    decreases bs.len(),
{
    if bs.len() > 0 {
        lemma_mixed_refers(bs.drop_last());
        lemma_all_widen(mixed_found(bs.drop_last()), bs);
        lemma_last_block_refers(mixed_for(bs.last()), bs);
        lemma_all_concat(mixed_found(bs.drop_last()), mixed_for(bs.last()), bs);
    }
}

proof fn lemma_comparison_refers(bs: Seq<BlockView>)
    ensures
        all_refer(comparison_found(bs), bs),
    decreases bs.len(),
{
    if bs.len() > 0 {
        lemma_comparison_refers(bs.drop_last());
        lemma_all_widen(comparison_found(bs.drop_last()), bs);
        lemma_last_block_refers(comparison_for(bs.last()), bs);
        lemma_all_concat(comparison_found(bs.drop_last()), comparison_for(bs.last()), bs);
    }
}

proof fn lemma_urgency_refers(bs: Seq<BlockView>)
    ensures
        all_refer(urgency_found(bs), bs),
    decreases bs.len(),
{
    if bs.len() > 0 {
        lemma_urgency_refers(bs.drop_last());
        lemma_all_widen(urgency_found(bs.drop_last()), bs);
        lemma_last_block_refers(urgency_for(bs.last()), bs);
        lemma_all_concat(urgency_found(bs.drop_last()), urgency_for(bs.last()), bs);
    }
}

proof fn lemma_standing_out_names(bs: Seq<BlockView>, id: usize)
    ensures
        first_standing_out(bs, id) matches Some(i) ==> names_block(bs, i),
    decreases bs.len(),
{
    if bs.len() > 0 {
        lemma_standing_out_names(bs.drop_last(), id);
        if let Some(i) = first_standing_out(bs.drop_last(), id) {
            let j = choose|j: int| 0 <= j < bs.drop_last().len() && (#[trigger] bs.drop_last()[j]).index == i;
            assert(bs[j] == bs.drop_last()[j]);
        } else {
            assert(bs[bs.len() - 1] == bs.last());
        }
    }
}

proof fn lemma_visual_refers(bs: Seq<BlockView>, ids: Seq<usize>)
    ensures
        all_refer(visual_for_lists(bs, ids), bs),
    decreases ids.len(),
{
    if ids.len() > 0 {
        lemma_visual_refers(bs, ids.drop_last());
        lemma_standing_out_names(bs, ids.last());
        lemma_all_concat(visual_for_lists(bs, ids.drop_last()), visual_for_list(bs, ids.last()), bs);
    }
}

/// Every finding of `analyze_document` on blocks `bs` names one of the
/// seven constraints; a finding about a block names a block of `bs` by its
/// index, and only constraint 3 has a finding about the whole page. When
/// the blocks are numbered by position (as Markdown reading numbers them),
/// every block index is below the number of blocks. The findings come
/// ordered by constraint, then by block, the page-level finding first.
pub proof fn law_findings_refer_to_blocks(bs: Seq<BlockView>)
    ensures
        all_refer(analysis_of(bs).violations, bs),
        crate::markdown::indexed_by_position(bs) ==> forall|k: int|
            0 <= k < analysis_of(bs).violations.len() ==> ((
            #[trigger] analysis_of(bs).violations[k]).block_index matches Some(i) ==> i < bs.len()),
        ordered_by(analysis_of(bs).violations, violation_key_fn()),
{
    lemma_preselect_refers(bs);
    lemma_visual_refers(bs, list_ids(bs));
    lemma_cancel_refers(bs);
    assert(all_refer(cancel_total(bs), bs)) by {
        let extra = if any_cta(bs) && !any_cancel(bs) {
            seq![cancel_missing_violation()]
        } else {
            Seq::empty()
        };
        assert(all_refer(extra, bs));
        lemma_all_concat(cancel_found(bs), extra, bs);
    }
    lemma_hidden_refers(bs);
    lemma_mixed_refers(bs);
    lemma_comparison_refers(bs);
    lemma_urgency_refers(bs);
    let p = preselect_found(bs);
    let v = visual_found(bs);
    let c = cancel_total(bs);
    let h = hidden_found(bs);
    let m = mixed_found(bs);
    let o = comparison_found(bs);
    let u = urgency_found(bs);
    lemma_all_concat(p, v, bs);
    lemma_all_concat(p + v, c, bs);
    lemma_all_concat(p + v + c, h, bs);
    lemma_all_concat(p + v + c + h, m, bs);
    lemma_all_concat(p + v + c + h + m, o, bs);
    lemma_all_concat(p + v + c + h + m + o, u, bs);
    let d = detected(bs);
    assert(all_refer(d, bs));
    let sorted = sort_by(d, violation_key_fn());
    lemma_sort_by(d, violation_key_fn());
    assert forall|k: int| 0 <= k < sorted.len() implies refers_within(#[trigger] sorted[k], bs) by {
        let x = sorted[k];
        sorted.to_multiset_ensures();
        d.to_multiset_ensures();
        assert(sorted.contains(x));
        assert(d.to_multiset().count(x) > 0);
        assert(d.contains(x));
        let j = choose|j: int| 0 <= j < d.len() && d[j] == x;
        assert(refers_within(d[j], bs));
    }
    if crate::markdown::indexed_by_position(bs) {
        assert forall|k: int| 0 <= k < sorted.len() implies ((#[trigger] sorted[k]).block_index matches Some(i) ==> i < bs.len()) by {
            assert(refers_within(sorted[k], bs));
            if let Some(i) = sorted[k].block_index {
                let j = choose|j: int| 0 <= j < bs.len() && (#[trigger] bs[j]).index == i;
                assert(bs[j].index == j);
            }
        }
    }
}

// ---------------------------------------------------------------------------
// Constraint 5: mixed meanings
// ---------------------------------------------------------------------------

/// At least two of a fact (a fact term or a digit), a claim and a call to
/// action occur in the block's lowercased text.
spec fn mixes_meanings(b: BlockView) -> bool {
    let t = lc_text(b);
    let f = contains_any(t, fact_terms()) || has_number_spec(t);
    let c = contains_any(t, claim_terms());
    let a = contains_any(t, cta_terms());
    (f && c) || (f && a) || (c && a)
}

/// No finding of `vs` is about constraint 5.
spec fn no_fives(vs: Seq<ViolationView>) -> bool {
    forall|k: int| 0 <= k < vs.len() ==> (#[trigger] vs[k]).constraint_id != 5
}

proof fn lemma_no_fives_concat(a: Seq<ViolationView>, b: Seq<ViolationView>)
    requires
        no_fives(a),
        no_fives(b),
    ensures
        no_fives(a + b),
{
    assert forall|k: int| 0 <= k < (a + b).len() implies (#[trigger] (a + b)[k]).constraint_id != 5 by {
        if k < a.len() {
            assert((a + b)[k] == a[k]);
        } else {
            assert((a + b)[k] == b[k - a.len()]);
        }
    }
}

proof fn lemma_preselect_found_not_mixed(bs: Seq<BlockView>)
    ensures
        no_fives(preselect_found(bs)),
    decreases bs.len(),
{
    if bs.len() > 0 {
        lemma_preselect_found_not_mixed(bs.drop_last());
        lemma_no_fives_concat(preselect_found(bs.drop_last()), preselect_for(bs.last()));
    }
}

proof fn lemma_cancel_found_not_mixed(bs: Seq<BlockView>)
    ensures
        no_fives(cancel_found(bs)),
    decreases bs.len(),
{
    if bs.len() > 0 {
        lemma_cancel_found_not_mixed(bs.drop_last());
        lemma_no_fives_concat(cancel_found(bs.drop_last()), cancel_for(bs.last()));
    }
}

proof fn lemma_hidden_found_not_mixed(bs: Seq<BlockView>)
    ensures
        no_fives(hidden_found(bs)),
    decreases bs.len(),
{
    if bs.len() > 0 {
        lemma_hidden_found_not_mixed(bs.drop_last());
        lemma_no_fives_concat(hidden_found(bs.drop_last()), hidden_for(bs.last()));
    }
}

proof fn lemma_comparison_found_not_mixed(bs: Seq<BlockView>)
    ensures
        no_fives(comparison_found(bs)),
    decreases bs.len(),
{
    if bs.len() > 0 {
        lemma_comparison_found_not_mixed(bs.drop_last());
        lemma_no_fives_concat(comparison_found(bs.drop_last()), comparison_for(bs.last()));
    }
}

proof fn lemma_urgency_found_not_mixed(bs: Seq<BlockView>)
    ensures
        no_fives(urgency_found(bs)),
    decreases bs.len(),
{
    if bs.len() > 0 {
        lemma_urgency_found_not_mixed(bs.drop_last());
        lemma_no_fives_concat(urgency_found(bs.drop_last()), urgency_for(bs.last()));
    }
}

proof fn lemma_visual_not_mixed(bs: Seq<BlockView>, ids: Seq<usize>)
    ensures
        no_fives(visual_for_lists(bs, ids)),
    decreases ids.len(),
{
    if ids.len() > 0 {
        lemma_visual_not_mixed(bs, ids.drop_last());
        lemma_no_fives_concat(visual_for_lists(bs, ids.drop_last()), visual_for_list(bs, ids.last()));
    }
}

/// Each constraint-5 finding of `vs` is about a block of `bs` that mixes meanings.
spec fn fives_justified(vs: Seq<ViolationView>, bs: Seq<BlockView>) -> bool {
    forall|j: int| 0 <= j < vs.len() && (#[trigger] vs[j]).constraint_id == 5 ==> exists|k: int|
        0 <= k < bs.len() && Some((#[trigger] bs[k]).index) == vs[j].block_index && mixes_meanings(bs[k])
}

proof fn lemma_mixed_found_justified(bs: Seq<BlockView>)
    ensures
        fives_justified(mixed_found(bs), bs),
        forall|k: int| 0 <= k < bs.len() && mixes_meanings(#[trigger] bs[k]) ==> mixed_found(bs).contains(
            mixed_violation(bs[k].index),
        ),
    decreases bs.len(),
{
    if bs.len() > 0 {
        let d = bs.drop_last();
        lemma_mixed_found_justified(d);
        let prev = mixed_found(d);
        let last = mixed_for(bs.last());
        let all = mixed_found(bs);
        assert(all == prev + last);
        assert forall|j: int| 0 <= j < all.len() && (#[trigger] all[j]).constraint_id == 5 implies exists|k: int|
            0 <= k < bs.len() && Some((#[trigger] bs[k]).index) == all[j].block_index && mixes_meanings(bs[k]) by {
            if j < prev.len() {
                assert(all[j] == prev[j]);
                let k = choose|k: int| 0 <= k < d.len() && Some((#[trigger] d[k]).index) == prev[j].block_index && mixes_meanings(d[k]);
                assert(bs[k] == d[k]);
            } else {
                assert(all[j] == last[j - prev.len()]);
                assert(bs[bs.len() - 1] == bs.last());
            }
        }
        assert forall|k: int| 0 <= k < bs.len() && mixes_meanings(#[trigger] bs[k]) implies all.contains(
            mixed_violation(bs[k].index),
        ) by {
            if k < d.len() {
                assert(bs[k] == d[k]);
                let j = choose|j: int| 0 <= j < prev.len() && prev[j] == mixed_violation(d[k].index);
                assert(all[j] == prev[j]);
            } else {
                assert(bs[k] == bs.last());
                assert(all[prev.len() as int] == last[0]);
            }
        }
    }
}

/// A block is flagged for constraint 5 ("FACT/CLAIM/CTA mixed") exactly
/// when at least two of a fact (a fact term or a digit), a claim term and a
/// call-to-action term occur in its lowercased text: such a block gets a
/// constraint-5 finding at its index, and every constraint-5 finding is at
/// the index of such a block.
pub proof fn law_mixed_meanings_flagged(bs: Seq<BlockView>)
    ensures
        forall|k: int|
            0 <= k < bs.len() && ({
                let t = lc_text(#[trigger] bs[k]);
                let f = contains_any(t, fact_terms()) || has_number_spec(t);
                let c = contains_any(t, claim_terms());
                let a = contains_any(t, cta_terms());
                (f && c) || (f && a) || (c && a)
            }) ==> exists|j: int|
                0 <= j < analysis_of(bs).violations.len() && (#[trigger] analysis_of(bs).violations[j]).constraint_id
                    == 5 && analysis_of(bs).violations[j].block_index == Some(bs[k].index),
        forall|j: int|
            0 <= j < analysis_of(bs).violations.len() && (#[trigger] analysis_of(bs).violations[j]).constraint_id
                == 5 ==> exists|k: int|
                0 <= k < bs.len() && Some((#[trigger] bs[k]).index) == analysis_of(bs).violations[j].block_index
                    && ({
                    let t = lc_text(bs[k]);
                    let f = contains_any(t, fact_terms()) || has_number_spec(t);
                    let c = contains_any(t, claim_terms());
                    let a = contains_any(t, cta_terms());
                    (f && c) || (f && a) || (c && a)
                }),
{
    let p = preselect_found(bs);
    let v = visual_found(bs);
    let c = cancel_total(bs);
    let h = hidden_found(bs);
    let m = mixed_found(bs);
    let o = comparison_found(bs);
    let u = urgency_found(bs);
    let d = detected(bs);
    assert(d == p + v + c + h + m + o + u);
    let pre = p + v + c + h;
    let post = o + u;
    lemma_preselect_found_not_mixed(bs);
    lemma_visual_not_mixed(bs, list_ids(bs));
    lemma_cancel_found_not_mixed(bs);
    assert(no_fives(c)) by {
        let extra = if any_cta(bs) && !any_cancel(bs) {
            seq![cancel_missing_violation()]
        } else {
            Seq::empty()
        };
        lemma_no_fives_concat(cancel_found(bs), extra);
    }
    lemma_hidden_found_not_mixed(bs);
    lemma_comparison_found_not_mixed(bs);
    lemma_urgency_found_not_mixed(bs);
    lemma_no_fives_concat(p, v);
    lemma_no_fives_concat(p + v, c);
    lemma_no_fives_concat(p + v + c, h);
    lemma_no_fives_concat(o, u);
    lemma_mixed_found_justified(bs);
    assert(d =~= pre + m + post);
    let sorted = sort_by(d, violation_key_fn());
    lemma_sort_by(d, violation_key_fn());
    assert(analysis_of(bs).violations == sorted);
    sorted.to_multiset_ensures();
    d.to_multiset_ensures();
    assert forall|k: int|
        0 <= k < bs.len() && mixes_meanings(#[trigger] bs[k]) implies exists|j: int|
            0 <= j < sorted.len() && (#[trigger] sorted[j]).constraint_id == 5 && sorted[j].block_index
                == Some(bs[k].index) by {
        let x = mixed_violation(bs[k].index);
        let i = choose|i: int| 0 <= i < m.len() && m[i] == x;
        assert(d[pre.len() + i] == m[i]);
        assert(d.contains(x));
        assert(d.to_multiset().count(x) > 0);
        assert(sorted.contains(x));
    }
    assert forall|j: int|
        0 <= j < sorted.len() && (#[trigger] sorted[j]).constraint_id == 5 implies exists|k: int|
            0 <= k < bs.len() && Some((#[trigger] bs[k]).index) == sorted[j].block_index && mixes_meanings(bs[k]) by {
        let x = sorted[j];
        assert(sorted.contains(x));
        assert(d.to_multiset().count(x) > 0);
        assert(d.contains(x));
        let i = choose|i: int| 0 <= i < d.len() && d[i] == x;
        if i < pre.len() {
            assert(d[i] == pre[i]);
        } else if i < pre.len() + m.len() {
            assert(d[i] == m[i - pre.len()]);
        } else {
            assert(d[i] == post[i - pre.len() - m.len()]);
        }
    }
}

} // verus!
