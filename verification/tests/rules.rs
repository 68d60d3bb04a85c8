use integrity::checker::{check_text, ConstraintChecker};
use integrity::constraint::{ConstraintId, Severity};
use integrity::document::parse;
use integrity::rule::{create_violation_from_matches, Rule, RuleMatch};
use integrity::rules::{
    FactOpinionMixRule, HardToCancelRule, HiddenDisadvantageRule, PreselectRule,
    UngroundedComparisonRule, UrgencyScarcityRule, VisualBiasRule,
};

#[test]
fn test_detect_preselect() {
    let doc = parse("メールマガジン購読がデフォルトでONになっています").unwrap();
    let rule = PreselectRule::new().unwrap();
    let violations = rule.check(&doc);
    assert!(!violations.is_empty());
}

#[test]
fn c1_preselect_test_no_false_positive() {
    let doc = parse("メールマガジンを購読しますか？ □ はい □ いいえ").unwrap();
    let rule = PreselectRule::new().unwrap();
    let violations = rule.check(&doc);
    assert!(violations.is_empty());
}

#[test]
fn test_detect_visual_bias() {
    let doc = parse("「購入する」を大きく赤いボタンで、「キャンセル」を小さくグレーで表示").unwrap();
    let rule = VisualBiasRule::new().unwrap();
    let violations = rule.check(&doc);
    assert!(!violations.is_empty());
}

#[test]
fn c2_visual_bias_test_no_false_positive() {
    let doc = parse("「購入する」「キャンセル」を同じサイズ・同じ色で並列表示").unwrap();
    let rule = VisualBiasRule::new().unwrap();
    let violations = rule.check(&doc);
    assert!(violations.is_empty());
}

#[test]
fn test_detect_hard_to_cancel() {
    let doc = parse("ご解約をご希望の場合は、カスタマーサポート（平日10-17時）までお電話ください").unwrap();
    let rule = HardToCancelRule::new().unwrap();
    let violations = rule.check(&doc);
    assert!(!violations.is_empty());
}

#[test]
fn c3_hard_to_cancel_test_no_false_positive() {
    let doc = parse("解約ボタンをクリックすると即座に解約が完了します").unwrap();
    let rule = HardToCancelRule::new().unwrap();
    let violations = rule.check(&doc);
    assert!(violations.is_empty());
}

#[test]
fn test_detect_hidden_disadvantage() {
    let doc = parse("月額980円 ※解約手数料については利用規約をご確認ください").unwrap();
    let rule = HiddenDisadvantageRule::new().unwrap();
    let violations = rule.check(&doc);
    assert!(!violations.is_empty());
}

#[test]
fn c4_hidden_disadvantage_test_no_false_positive() {
    let doc = parse("月額980円（解約時に手数料3,000円が発生します）").unwrap();
    let rule = HiddenDisadvantageRule::new().unwrap();
    let violations = rule.check(&doc);
    assert!(violations.is_empty());
}

#[test]
fn test_detect_fact_opinion_mix() {
    let doc = parse("当社の満足度調査では92%のお客様が満足と回答。今すぐお申し込みがおすすめです！").unwrap();
    let rule = FactOpinionMixRule::new().unwrap();
    let violations = rule.check(&doc);
    assert!(!violations.is_empty());
}

#[test]
fn test_no_false_positive_separated() {
    let doc = parse(
        "【調査結果】満足度調査では92%のお客様が満足と回答（2024年4月実施、n=500）\n\n【ご案内】お申し込みはこちらから",
    )
    .unwrap();
    let rule = FactOpinionMixRule::new().unwrap();
    let violations = rule.check(&doc);
    // 別のブロックなので混在していない
    assert!(violations.is_empty());
}

#[test]
fn test_detect_ungrounded_comparison() {
    let doc = parse("顧客満足度No.1！").unwrap();
    let rule = UngroundedComparisonRule::new().unwrap();
    let violations = rule.check(&doc);
    assert!(!violations.is_empty());
}

#[test]
fn test_no_false_positive_with_evidence() {
    let doc = parse("顧客満足度No.1（○○調査会社、2024年1-3月、n=10,000）").unwrap();
    let rule = UngroundedComparisonRule::new().unwrap();
    let violations = rule.check(&doc);
    assert!(violations.is_empty());
}

#[test]
fn test_detect_urgency_scarcity() {
    let doc = parse("今だけ特別価格！残りわずかです！").unwrap();
    let rule = UrgencyScarcityRule::new().unwrap();
    let violations = rule.check(&doc);
    assert!(!violations.is_empty());
}

#[test]
fn test_no_false_positive_with_justification() {
    let doc = parse("12月31日23:59までの期間限定価格（在庫残り23個、毎日0時更新）").unwrap();
    let rule = UrgencyScarcityRule::new().unwrap();
    let violations = rule.check(&doc);
    assert!(violations.is_empty());
}

#[test]
fn fact_opinion_snippets_are_facts_then_opinions() {
    let doc = parse("満足度92%、おすすめです").unwrap();
    let rule = FactOpinionMixRule::new().unwrap();
    let violations = rule.check(&doc);
    assert_eq!(violations.len(), 1);
    assert_eq!(violations[0].evidence.snippets, vec!["92%", "満足度92", "おすすめ"]);
    assert_eq!(violations[0].evidence.line, Some(0));
    assert_eq!(violations[0].evidence.context.as_deref(), Some("満足度92%、おすすめです"));
}

#[test]
fn lexical_rule_gathers_all_matches_into_one_violation() {
    let doc = parse("初期選択されています\n\n自動的に追加されます").unwrap();
    let rule = PreselectRule::new().unwrap();
    let violations = rule.check(&doc);
    assert_eq!(violations.len(), 1);
    let v = &violations[0];
    assert_eq!(v.constraint_id, ConstraintId(1));
    assert_eq!(v.evidence.snippets, vec!["初期選択", "自動的に追加"]);
    // The line and context are those of the first match.
    assert_eq!(v.evidence.line, Some(0));
    assert_eq!(v.evidence.context.as_deref(), Some("初期選択されています"));
    assert_eq!(v.severity, Severity::HardFail);
    assert_eq!(rule.constraint_id(), ConstraintId(1));
}

#[test]
fn create_violation_from_no_match_is_none() {
    assert!(create_violation_from_matches(ConstraintId(3), vec![]).is_none());
    let m = RuleMatch { matched: "x".to_string(), line: 4, context: None };
    let v = create_violation_from_matches(ConstraintId(3), vec![m]).unwrap();
    assert_eq!(v.title, "やめにくさの禁止");
    assert_eq!(v.suggestions, vec!["解約・退会手続きを、開始手続きと同等以上に簡単にする"]);
    assert_eq!(v.evidence.line, Some(4));
    assert!(v.evidence.context.is_none());
}

#[test]
fn readme_example_human_output() {
    let report = check_text("顧客満足度No.1！今だけ特別価格！").unwrap();
    assert!(report.has_violations());
    assert_eq!(report.violation_count(), 2);
    let expected = "⚠ 2 件の違反が検出されました\n\
========================================\n\
\n\
[違反 1] 制約6: 根拠のない比較・優位性の禁止\n\
重大度: hard_fail\n\
検出箇所:\n\
\x20 - 「No.1」\n\
行番号: 1\n\
コンテキスト: 顧客満足度No.1！今だけ特別価格！\n\
修正提案:\n\
\x20 → 比較・優位性の主張には、調査機関名、調査期間、母数（サンプル数）、出典を明記する\n\
\n\
[違反 2] 制約7: 根拠のない急がせ・希少性の禁止\n\
重大度: hard_fail\n\
検出箇所:\n\
\x20 - 「今だけ」\n\
行番号: 1\n\
コンテキスト: 顧客満足度No.1！今だけ特別価格！\n\
修正提案:\n\
\x20 → 期限・在庫が事実なら具体的な条件と更新基準を明示する。根拠が無い場合は表現を撤去する\n\
\n";
    assert_eq!(report.to_human_readable(), expected);
}

#[test]
fn check_orders_violations_by_line() {
    let checker = ConstraintChecker::new().unwrap();
    let doc = parse("今だけ！\n\n顧客満足度No.1").unwrap();
    let report = checker.check(&doc);
    let ids: Vec<u8> = report.violations.iter().map(|v| v.constraint_id.0).collect();
    let lines: Vec<Option<usize>> = report.violations.iter().map(|v| v.evidence.line).collect();
    assert_eq!(ids, vec![7, 6]);
    assert_eq!(lines, vec![Some(0), Some(2)]);
    assert!(report.violations.iter().all(|v| v.severity == Severity::HardFail));
    assert_eq!(report.version, "0.1");
}

#[test]
fn clean_text_has_no_violations() {
    let report = check_text("本製品は月額980円です。解約はいつでも画面から行えます。").unwrap();
    assert!(!report.has_violations());
    assert_eq!(report.to_human_readable(), "✓ 違反は検出されませんでした。\n");
}
