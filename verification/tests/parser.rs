use integrity::block::{Block, BlockKind};
use integrity::document::{parse, Document};

#[test]
fn test_parse_simple() {
    let doc = Document::parse("これはテスト文です。\n\n別の段落です。").unwrap();
    assert_eq!(doc.block_count(), 2);
}

#[test]
fn test_parse_with_headings() {
    let doc = Document::parse("# 見出し\n\nこれは本文です。").unwrap();
    assert_eq!(doc.block_count(), 2);
}

#[test]
fn test_parse_with_list() {
    let doc = Document::parse("- 項目1\n- 項目2\n- 項目3").unwrap();
    assert_eq!(doc.block_count(), 3);
}

#[test]
fn block_kinds_are_detected() {
    let doc = parse("# 見出し\n本文の一行目\n本文の二行目\n\n- 項目\n1. 番号付き\n※注意書き\n【お知らせ】").unwrap();
    let kinds: Vec<BlockKind> = doc.blocks.iter().map(|b| b.kind).collect();
    assert_eq!(
        kinds,
        vec![
            BlockKind::Heading,
            BlockKind::ListItem,
            BlockKind::ListItem,
            BlockKind::Note,
            BlockKind::Heading,
        ]
    );
    // A heading line followed by ordinary lines is one block joined by spaces.
    assert_eq!(doc.blocks[0].text, "# 見出し 本文の一行目 本文の二行目");
    assert_eq!(doc.blocks[0].line_number, 0);
    assert_eq!(doc.blocks[1].line_number, 4);
    assert_eq!(doc.blocks[2].line_number, 5);
}

#[test]
fn block_sentences_are_split() {
    let b = Block::new("一文目。二文目！三文目？".to_string(), 3).unwrap();
    assert_eq!(b.kind, BlockKind::Paragraph);
    assert_eq!(b.line_number, 3);
    assert_eq!(b.sentences, vec!["一文目", "二文目", "三文目"]);
}

#[test]
fn numbered_list_needs_whitespace_after_marker() {
    let item = Block::new("3) 三番目".to_string(), 0).unwrap();
    assert_eq!(item.kind, BlockKind::ListItem);
    let not_item = Block::new("3)三番目".to_string(), 0).unwrap();
    assert_eq!(not_item.kind, BlockKind::Paragraph);
}

#[test]
fn long_bracket_line_is_not_a_heading() {
    // 【 followed by a long text: 50 bytes or more.
    let b = Block::new("【この見出しはとても長いのでヘッダーとはみなされないはずです】".to_string(), 0).unwrap();
    assert_eq!(b.kind, BlockKind::Paragraph);
}

#[test]
fn block_at_line_finds_the_covering_block() {
    let doc = parse("一つ目\n\n二つ目").unwrap();
    assert_eq!(doc.block_at_line(0).map(|b| b.text.clone()), Some("一つ目".to_string()));
    assert!(doc.block_at_line(1).is_none());
    assert_eq!(doc.block_at_line(2).map(|b| b.text.clone()), Some("二つ目".to_string()));
    assert_eq!(doc.full_text(), "一つ目\n二つ目");
}

#[test]
fn full_text_combines_the_block_texts() {
    let doc = parse("  hello  ").unwrap();
    assert_eq!(doc.full_text(), "hello");
    let doc = parse("a\nb\n\n- c\n- d").unwrap();
    assert_eq!(doc.full_text(), "a b\n- c\n- d");
    let doc = parse("").unwrap();
    assert_eq!(doc.full_text(), "");
}

#[test]
fn block_at_line_covers_every_line_of_a_block() {
    let doc = parse("a\nb\n\nc").unwrap();
    let first = doc.block_at_line(1).unwrap();
    assert_eq!(first.text, "a b");
    assert_eq!(first.line_number, 0);
    assert_eq!(doc.block_at_line(0).map(|b| b.text.clone()), Some("a b".to_string()));
    assert!(doc.block_at_line(2).is_none());
    assert_eq!(doc.block_at_line(3).map(|b| b.line_number), Some(3));
    assert!(doc.block_at_line(4).is_none());
    // A list item opens a block of its own, so line 1 is not part of block 0.
    let doc = parse("intro\n- item\n  more").unwrap();
    assert_eq!(doc.block_at_line(1).map(|b| b.line_number), Some(1));
    assert_eq!(doc.block_at_line(2).map(|b| b.text.clone()), Some("- item more".to_string()));
}

#[test]
fn blank_input_has_no_blocks() {
    let doc = parse("  \n\t\n").unwrap();
    assert_eq!(doc.block_count(), 0);
}
