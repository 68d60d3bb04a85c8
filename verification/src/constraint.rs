//! The seven hard constraints.
use vstd::prelude::*;

verus! {

/// Identifier of a hard constraint (1 to 7).
#[derive(Debug, Clone, Copy, PartialEq, Eq, Hash, Structural)]
pub struct ConstraintId(pub u8);

/// How serious a violation is.
#[derive(Debug, Clone, Copy, PartialEq, Eq, Structural)]
pub enum Severity {
    /// A hard constraint is violated: the text fails at once.
    HardFail,
    /// A warning (not produced by this version).
    Warning,
}

/// A constraint with its texts.
#[derive(Debug, Clone)]
pub struct Constraint {
    pub id: ConstraintId,
    pub title: &'static str,
    pub description: &'static str,
    pub suggestion: &'static str,
}

/// The title of constraint `id`.
pub open spec fn title_of(id: u8) -> Seq<char> {
    if id == 1 {
        "プリセレクトの禁止"@
    } else if id == 2 {
        "視覚格差の禁止"@
    } else if id == 3 {
        "やめにくさの禁止"@
    } else if id == 4 {
        "不利情報隠しの禁止"@
    } else if id == 5 {
        "事実と意見の混在禁止"@
    } else if id == 6 {
        "根拠のない比較・優位性の禁止"@
    } else if id == 7 {
        "根拠のない急がせ・希少性の禁止"@
    } else {
        "不明な制約"@
    }
}

/// The description of constraint `id`.
pub open spec fn description_of(id: u8) -> Seq<char> {
    if id == 1 {
        "ユーザーの明示的な意思なく、オプションが事前に選択されている状態を禁止する"@
    } else if id == 2 {
        "選択肢間で視覚的な差異（サイズ、色、配置）を設けて特定の選択を誘導することを禁止する"@
    } else if id == 3 {
        "解約・退会・キャンセル等の手続きを、開始手続きより困難にすることを禁止する"@
    } else if id == 4 {
        "ユーザーにとって不利な情報を、目立たない場所に配置したり、アクセスしにくくすることを禁止する"@
    } else if id == 5 {
        "客観的事実（数値、データ）と主観的意見（おすすめ、評価）を同一段落で混在させ、区別を困難にすることを禁止する"@
    } else if id == 6 {
        "調査期間、母数、出典を明示せずに、No.1や最安等の優位性を主張することを禁止する"@
    } else if id == 7 {
        "実際の期限や在庫状況に基づかない緊急性・希少性の演出を禁止する"@
    } else {
        "不明"@
    }
}

/// The suggested remedy for constraint `id`.
pub open spec fn suggestion_of(id: u8) -> Seq<char> {
    if id == 1 {
        "全てのオプションを未選択状態にし、ユーザーに明示的な選択を求める"@
    } else if id == 2 {
        "全ての選択肢を同等のサイズ・色・配置で表示する"@
    } else if id == 3 {
        "解約・退会手続きを、開始手続きと同等以上に簡単にする"@
    } else if id == 4 {
        "不利な情報を、関連する有利な情報と同じ場所に同等の目立ち方で表示する"@
    } else if id == 5 {
        "事実と意見を別のセクション・段落に分離し、明確にラベル付けする"@
    } else if id == 6 {
        "比較・優位性の主張には、調査機関名、調査期間、母数（サンプル数）、出典を明記する"@
    } else if id == 7 {
        "期限・在庫が事実なら具体的な条件と更新基準を明示する。根拠が無い場合は表現を撤去する"@
    } else {
        "制約を確認して適切に修正する"@
    }
}

/// The text a severity is written as.
pub open spec fn severity_text(s: Severity) -> Seq<char> {
    match s {
        Severity::HardFail => "hard_fail"@,
        Severity::Warning => "warning"@,
    }
}

impl ConstraintId {
    /// Constraint 1: no preselected options.
    pub fn preselect() -> (r: Self)
        ensures
            r.0 == 1,
    {
        ConstraintId(1)
    }

    /// Constraint 2: no visual disparity between options.
    pub fn visual_bias() -> (r: Self)
        ensures
            r.0 == 2,
    {
        ConstraintId(2)
    }

    /// Constraint 3: stopping no harder than starting.
    pub fn hard_to_cancel() -> (r: Self)
        ensures
            r.0 == 3,
    {
        ConstraintId(3)
    }

    /// Constraint 4: no hidden disadvantages.
    pub fn hidden_disadvantage() -> (r: Self)
        ensures
            r.0 == 4,
    {
        ConstraintId(4)
    }

    /// Constraint 5: facts and opinions kept apart.
    pub fn fact_opinion_mix() -> (r: Self)
        ensures
            r.0 == 5,
    {
        ConstraintId(5)
    }

    /// Constraint 6: no ungrounded comparison.
    pub fn ungrounded_comparison() -> (r: Self)
        ensures
            r.0 == 6,
    {
        ConstraintId(6)
    }

    /// Constraint 7: no ungrounded urgency or scarcity.
    pub fn urgency_scarcity() -> (r: Self)
        ensures
            r.0 == 7,
    {
        ConstraintId(7)
    }

    /// All constraints, in order.
    pub fn all() -> (r: &'static [Self])
        ensures
            r@.len() == 7,
            forall|i: int| 0 <= i < 7 ==> #[trigger] r@[i].0 == i + 1,
    {
        &[
            ConstraintId(1),
            ConstraintId(2),
            ConstraintId(3),
            ConstraintId(4),
            ConstraintId(5),
            ConstraintId(6),
            ConstraintId(7),
        ]
    }

    /// The constraint's title.
    pub fn title(self) -> (r: &'static str)
        ensures
            r@ == title_of(self.0),
    {
        match self.0 {
            1 => "プリセレクトの禁止",
            2 => "視覚格差の禁止",
            3 => "やめにくさの禁止",
            4 => "不利情報隠しの禁止",
            5 => "事実と意見の混在禁止",
            6 => "根拠のない比較・優位性の禁止",
            7 => "根拠のない急がせ・希少性の禁止",
            _ => "不明な制約",
        }
    }

    /// The constraint's description.
    pub fn description(self) -> (r: &'static str)
        ensures
            r@ == description_of(self.0),
    {
        match self.0 {
            1 => "ユーザーの明示的な意思なく、オプションが事前に選択されている状態を禁止する",
            2 => "選択肢間で視覚的な差異（サイズ、色、配置）を設けて特定の選択を誘導することを禁止する",
            3 => "解約・退会・キャンセル等の手続きを、開始手続きより困難にすることを禁止する",
            4 => "ユーザーにとって不利な情報を、目立たない場所に配置したり、アクセスしにくくすることを禁止する",
            5 => "客観的事実（数値、データ）と主観的意見（おすすめ、評価）を同一段落で混在させ、区別を困難にすることを禁止する",
            6 => "調査期間、母数、出典を明示せずに、No.1や最安等の優位性を主張することを禁止する",
            7 => "実際の期限や在庫状況に基づかない緊急性・希少性の演出を禁止する",
            _ => "不明",
        }
    }

    /// The suggested remedy.
    pub fn suggestion(self) -> (r: &'static str)
        ensures
            r@ == suggestion_of(self.0),
    {
        match self.0 {
            1 => "全てのオプションを未選択状態にし、ユーザーに明示的な選択を求める",
            2 => "全ての選択肢を同等のサイズ・色・配置で表示する",
            3 => "解約・退会手続きを、開始手続きと同等以上に簡単にする",
            4 => "不利な情報を、関連する有利な情報と同じ場所に同等の目立ち方で表示する",
            5 => "事実と意見を別のセクション・段落に分離し、明確にラベル付けする",
            6 => "比較・優位性の主張には、調査機関名、調査期間、母数（サンプル数）、出典を明記する",
            7 => "期限・在庫が事実なら具体的な条件と更新基準を明示する。根拠が無い場合は表現を撤去する",
            _ => "制約を確認して適切に修正する",
        }
    }
}

impl Severity {
    /// The text the severity is written as.
    pub fn as_str(&self) -> (r: &'static str)
        ensures
            r@ == severity_text(*self),
    {
        match self {
            Severity::HardFail => "hard_fail",
            Severity::Warning => "warning",
        }
    }
}

impl Constraint {
    /// The constraint `id` with its texts.
    pub fn from_id(id: ConstraintId) -> (r: Self)
        ensures
            r.id == id,
            r.title@ == title_of(id.0),
            r.description@ == description_of(id.0),
            r.suggestion@ == suggestion_of(id.0),
    {
        Self {
            id,
            title: id.title(),
            description: id.description(),
            suggestion: id.suggestion(),
        }
    }
}

} // verus!
