use integrity::cli::validate_input;
use integrity::constraint::{Constraint, ConstraintId, Severity};
use integrity::error::IntegrityError;
use integrity::mcp::{check_constraints_tool, is_silent_notification, resource_index, route, McpMethod, ToolAnswer};
use integrity::report::{Evidence, Report, Violation};
use integrity::text::{chars_of, contains_chars, split_lines, trim_chars};

#[test]
fn constraint_texts() {
    let all = ConstraintId::all();
    assert_eq!(all.len(), 7);
    assert_eq!(all[6], ConstraintId::urgency_scarcity());
    assert_eq!(ConstraintId(6).title(), "根拠のない比較・優位性の禁止");
    assert_eq!(ConstraintId(9).title(), "不明な制約");
    assert_eq!(ConstraintId(9).description(), "不明");
    assert_eq!(ConstraintId(0).suggestion(), "制約を確認して適切に修正する");
    let c = Constraint::from_id(ConstraintId::preselect());
    assert_eq!(c.title, "プリセレクトの禁止");
    assert_eq!(c.description, "ユーザーの明示的な意思なく、オプションが事前に選択されている状態を禁止する");
    assert_eq!(Severity::HardFail.as_str(), "hard_fail");
    assert_eq!(Severity::Warning.as_str(), "warning");
}

#[test]
fn evidence_and_violation_builders() {
    let e = Evidence::new(vec!["a".to_string()]).with_line(2).with_context("ctx".to_string());
    assert_eq!(e.line, Some(2));
    assert_eq!(e.context.as_deref(), Some("ctx"));
    let v = Violation::with_default_suggestion(ConstraintId::hidden_disadvantage(), e.clone());
    assert_eq!(v.title, "不利情報隠しの禁止");
    assert_eq!(v.severity, Severity::HardFail);
    assert_eq!(v.suggestions, vec!["不利な情報を、関連する有利な情報と同じ場所に同等の目立ち方で表示する"]);
    let w = Violation::new(ConstraintId(2), e, vec!["s1".to_string(), "s2".to_string()]);
    assert_eq!(w.suggestions.len(), 2);
    let r = Report::new(vec![v, w]);
    assert_eq!(r.version, "0.1");
    assert_eq!(r.violation_count(), 2);
    assert!(r.has_violations());
    assert!(!Report::default().has_violations());
}

#[test]
fn human_readable_without_line_or_context() {
    let e = Evidence::new(vec!["x".to_string(), "y".to_string()]);
    let v = Violation::new(ConstraintId(1), e, vec![]);
    let r = Report::new(vec![v]);
    assert_eq!(
        r.to_human_readable(),
        "⚠ 1 件の違反が検出されました\n========================================\n\n[違反 1] 制約1: プリセレクトの禁止\n重大度: hard_fail\n検出箇所:\n  - 「x」\n  - 「y」\n修正提案:\n\n"
    );
}

#[test]
fn input_validation() {
    assert!(validate_input("abc", 10).is_ok());
    assert!(matches!(validate_input(" \n\t", 10), Err(IntegrityError::EmptyInput)));
    match validate_input("abc", 2) {
        Err(IntegrityError::InputTooLarge { max_bytes, actual_bytes }) => {
            assert_eq!(max_bytes, 2);
            assert_eq!(actual_bytes, 3);
        }
        _ => panic!("expected too large"),
    }
    match validate_input("あ", 2) {
        Err(IntegrityError::InputTooLarge { actual_bytes, .. }) => assert_eq!(actual_bytes, 3),
        _ => panic!("expected too large"),
    }
}

#[test]
fn error_messages() {
    assert_eq!(IntegrityError::EmptyInput.message(), "入力が空です");
    assert_eq!(
        IntegrityError::InputTooLarge { max_bytes: 10, actual_bytes: 12 }.message(),
        "入力が大きすぎます（最大: 10 バイト、実際: 12 バイト）"
    );
    assert_eq!(IntegrityError::InvalidFormat("xml".to_string()).message(), "無効な出力フォーマット: xml");
    assert_eq!(IntegrityError::Other("boom".to_string()).message(), "boom");
}

#[test]
fn mcp_routing() {
    assert_eq!(route("initialize"), McpMethod::Initialize);
    assert_eq!(route("tools/call"), McpMethod::ToolsCall);
    assert_eq!(route("resources/read"), McpMethod::ResourcesRead);
    assert_eq!(route("nope"), McpMethod::Unknown);
    assert!(is_silent_notification("notifications/initialized", false));
    assert!(!is_silent_notification("notifications/initialized", true));
    assert!(!is_silent_notification("initialize", false));
    assert_eq!(resource_index("integrity://philosophy"), Some(1));
    assert_eq!(resource_index("integrity://other"), None);
}

#[test]
fn mcp_check_tool() {
    match check_constraints_tool(false, None, None).unwrap() {
        ToolAnswer::Refused { code, message } => {
            assert_eq!(code, -32602);
            assert_eq!(message, "Missing arguments");
        }
        _ => panic!(),
    }
    match check_constraints_tool(true, None, None).unwrap() {
        ToolAnswer::Refused { message, .. } => assert_eq!(message, "Missing required argument: input"),
        _ => panic!(),
    }
    match check_constraints_tool(true, Some("  "), None).unwrap() {
        ToolAnswer::Refused { message, .. } => assert_eq!(message, "Input is empty"),
        _ => panic!(),
    }
    let big = "a".repeat(1048577);
    match check_constraints_tool(true, Some(&big), None).unwrap() {
        ToolAnswer::Refused { message, .. } => {
            assert_eq!(message, "Input too large (max: 1048576 bytes, actual: 1048577 bytes)")
        }
        _ => panic!(),
    }
    match check_constraints_tool(true, Some("顧客満足度No.1！"), Some("json")).unwrap() {
        ToolAnswer::Checked { report, json } => {
            assert!(json);
            assert_eq!(report.violation_count(), 1);
        }
        _ => panic!(),
    }
    match check_constraints_tool(true, Some("普通の文章"), Some("human")).unwrap() {
        ToolAnswer::Checked { report, json } => {
            assert!(!json);
            assert!(!report.has_violations());
        }
        _ => panic!(),
    }
}

#[test]
fn text_helpers() {
    let lines = split_lines(&chars_of("a\r\nb\n\nc\n"));
    let as_strings: Vec<String> = lines.iter().map(|l| l.iter().collect()).collect();
    assert_eq!(as_strings, vec!["a", "b", "", "c"]);
    let t: String = trim_chars(&chars_of("\u{3000} x y \t")).iter().collect();
    assert_eq!(t, "x y");
    assert!(contains_chars(&chars_of("abcdef"), &chars_of("cde")));
    assert!(!contains_chars(&chars_of("abc"), &chars_of("abd")));
    assert!(contains_chars(&chars_of("abc"), &chars_of("")));
}
