use integrity::analysis::analyze_document;
use integrity::browser::{
    report_status, summarize, title_from, violation_heading, violation_location, BrowserTestApp,
    TabState,
};
use integrity::markdown::parse_markdown;
use integrity::model::{Block, BlockKind, Document};

#[test]
fn markdown_blocks_and_inline_markup() {
    let doc = parse_markdown("# Title **bold**\n\nSome *em* text with [a link](http://x.y) and ![pic](p.png).\nsecond line\n- one\n- two\n\n1. first\n> quoted\n```rust\nlet x = 1;\n```");
    let kinds: Vec<&str> = doc.blocks.iter().map(|b| b.kind.label()).collect();
    assert_eq!(
        kinds,
        vec!["Heading", "Paragraph", "List item", "List item", "List item", "Block quote", "Code block"]
    );
    assert_eq!(doc.blocks[0].text, "Title bold");
    assert_eq!(doc.blocks[1].text, "Some em text with a link and pic.\nsecond line");
    assert_eq!(doc.blocks[1].raw, "Some *em* text with [a link](http://x.y) and ![pic](p.png).\nsecond line");
    match &doc.blocks[2].kind {
        BlockKind::ListItem { ordered, list_id } => {
            assert!(!ordered);
            assert_eq!(*list_id, 1);
        }
        _ => panic!("not a list item"),
    }
    match &doc.blocks[4].kind {
        BlockKind::ListItem { ordered, list_id } => {
            assert!(*ordered);
            assert_eq!(*list_id, 2);
        }
        _ => panic!("not a list item"),
    }
    assert_eq!(doc.blocks[5].text, "quoted");
    match &doc.blocks[6].kind {
        BlockKind::CodeBlock { info } => assert_eq!(info.as_deref(), Some("rust")),
        _ => panic!("not a code block"),
    }
    assert_eq!(doc.blocks[6].text, "let x = 1;");
    for (i, b) in doc.blocks.iter().enumerate() {
        assert_eq!(b.index, i);
    }
}

#[test]
fn unclosed_code_block_is_kept() {
    let doc = parse_markdown("```\ncode\n  more");
    assert_eq!(doc.blocks.len(), 1);
    assert_eq!(doc.blocks[0].text, "code\n  more");
    match &doc.blocks[0].kind {
        BlockKind::CodeBlock { info } => assert!(info.is_none()),
        _ => panic!("not a code block"),
    }
}

#[test]
fn heading_needs_text() {
    let doc = parse_markdown("###\n## Two");
    assert_eq!(doc.blocks.len(), 2);
    assert_eq!(doc.blocks[0].kind.label(), "Paragraph");
    match &doc.blocks[1].kind {
        BlockKind::Heading { level } => assert_eq!(*level, 2),
        _ => panic!("not a heading"),
    }
}

#[test]
fn analysis_flags_urgency_and_visual_gap() {
    let doc = parse_markdown("今だけ限定価格\n\n- **おすすめプラン**\n- 通常プラン");
    let report = analyze_document(&doc);
    assert!(report.hard_fail());
    let ids: Vec<(u8, Option<usize>)> =
        report.violations.iter().map(|v| (v.constraint_id, v.block_index)).collect();
    // "おすすめ" is also a comparison word without evidence.
    assert_eq!(ids, vec![(2, Some(1)), (6, Some(1)), (7, Some(0))]);
    assert!(report.violations[0].assumption);
    assert_eq!(report.violations[2].summary, "Urgency/scarcity without evidence");
    assert_eq!(report.assumptions.len(), 2);
}

#[test]
fn analysis_cta_without_stop_path() {
    let doc = parse_markdown("今すぐ登録");
    let report = analyze_document(&doc);
    let ids: Vec<(u8, Option<usize>)> =
        report.violations.iter().map(|v| (v.constraint_id, v.block_index)).collect();
    // Constraint 3 for the whole page (no stop path) comes before
    // block-level findings; constraint 7 for "今すぐ" is not an urgency term.
    assert_eq!(ids, vec![(3, None)]);
    assert!(report.violations[0].assumption);
}

#[test]
fn analysis_mixed_and_comparison() {
    let doc = parse_markdown("No.1の人気サービス、月額980円");
    let report = analyze_document(&doc);
    let ids: Vec<(u8, Option<usize>)> =
        report.violations.iter().map(|v| (v.constraint_id, v.block_index)).collect();
    assert_eq!(ids, vec![(5, Some(0)), (6, Some(0))]);
}

#[test]
fn clean_page_passes() {
    let doc = parse_markdown("# 料金\n\n月額980円です。");
    let report = analyze_document(&doc);
    assert!(!report.hard_fail());
    assert_eq!(report_status(&report), "No violations");
}

#[test]
fn report_texts() {
    let doc = parse_markdown("今だけ限定価格");
    let report = analyze_document(&doc);
    assert_eq!(report_status(&report), "Hard fail: 1 violation(s)");
    assert_eq!(violation_heading(&report.violations[0]), "Constraint 7: Urgency/scarcity without evidence");
    assert_eq!(
        violation_location(&report.violations[0], Some(&doc)),
        Some("Location: Paragraph #1 - 今だけ限定価格".to_string())
    );
    assert_eq!(violation_location(&report.violations[0], None), None);
}

#[test]
fn summarize_cuts_long_text() {
    assert_eq!(summarize("abcdef", 3), "abc...");
    assert_eq!(summarize("abc", 3), "abc");
    assert_eq!(summarize("日本語の文", 2), "日本...");
}

#[test]
fn tab_titles() {
    let mut tab = TabState::new();
    assert_eq!(tab.title(1), "Tab 2");
    tab.markdown_path = "notes/ideas.md".to_string();
    assert_eq!(tab.title(0), "ideas.md");
    assert_eq!(title_from("x", None, 4), "Tab 5");
    assert_eq!(title_from("  ", Some("n".to_string()), 0), "Tab 1");
}

#[test]
fn tab_title_is_the_file_name() {
    let mut tab = TabState::new();
    tab.markdown_path = "  ideas.md  ".to_string();
    assert_eq!(tab.title(3), "ideas.md");
    tab.markdown_path = "docs/page.md".to_string();
    assert_eq!(tab.title(3), "page.md");
    tab.markdown_path = "a/b/c.md".to_string();
    assert_eq!(tab.title(0), "c.md");
    tab.markdown_path = "..".to_string();
    assert_eq!(tab.title(0), "Tab 1");
    tab.markdown_path = "   ".to_string();
    assert_eq!(tab.title(6), "Tab 7");
}

#[test]
fn select_tab_shows_an_existing_tab_only() {
    let mut app = BrowserTestApp::with_dark_mode(true);
    app.add_tab();
    app.add_tab();
    app.select_tab(1);
    assert_eq!(app.active_tab, 1);
    app.select_tab(3);
    assert_eq!(app.active_tab, 1);
    assert_eq!(app.tabs.len(), 3);
    assert!(app.dark_mode);
}

#[test]
fn tabs_add_and_close() {
    let mut app = BrowserTestApp::with_dark_mode(false);
    app.close_tab(0);
    assert_eq!(app.tabs.len(), 1);
    app.add_tab();
    app.add_tab();
    assert_eq!(app.tabs.len(), 3);
    let added = &app.tabs[2];
    assert!(added.markdown_path.is_empty());
    assert!(added.document.is_none() && added.report.is_none() && added.last_error.is_none());
    assert_eq!(app.active_tab, 2);
    app.close_tab(0);
    assert_eq!(app.tabs.len(), 2);
    assert_eq!(app.active_tab, 1);
    app.close_tab(1);
    assert_eq!(app.active_tab, 0);
    app.close_tab(5);
    assert_eq!(app.tabs.len(), 1);
    if let Some(tab) = app.active_tab_mut() {
        tab.markdown_path = "example.md".into();
    }
    assert_eq!(app.tabs[0].markdown_path, "example.md");
}

#[test]
fn tab_loading() {
    let mut tab = TabState::new();
    assert!(tab.begin_load().is_none());
    assert_eq!(tab.last_error.as_deref(), Some("Please enter a Markdown file path."));
    tab.markdown_path = "  page.md ".to_string();
    assert_eq!(tab.begin_load().as_deref(), Some("page.md"));
    tab.finish_load(Err("no such file".to_string()));
    assert_eq!(tab.last_error.as_deref(), Some("Failed to read file: no such file"));
    assert!(tab.document.is_none());
    tab.finish_load(Ok("# Title\n\nParagraph.".to_string()));
    assert!(tab.last_error.is_none());
    assert_eq!(tab.document.as_ref().map(|d| d.blocks.len()), Some(2));
    assert!(tab.report.is_some());
}

#[test]
fn model_constructors() {
    let b = Block::new(BlockKind::BlockQuote, "t".to_string(), "> t".to_string(), 3);
    assert_eq!(b.index, 3);
    let d = Document::new("> t".to_string(), vec![b]);
    assert_eq!(d.blocks.len(), 1);
    assert_eq!(BlockKind::CodeBlock { info: None }.label(), "Code block");
}
