use lattice::filters::{bullet_items, bullet_text, code_block, indent, quote, sequence_gram, truncate};

#[test]
fn bullet_from_array() {
    let items = vec!["a".to_string(), "b".to_string(), "c".to_string()];
    assert_eq!(bullet_items(&items), "- a\n- b\n- c");
}

#[test]
fn bullet_from_multiline_string() {
    assert_eq!(bullet_text("first line\nsecond line\n"), "- first line\n- second line");
}

#[test]
fn indent_prepends_spaces() {
    assert_eq!(indent("a\nb", 4).unwrap(), "    a\n    b");
}

#[test]
fn code_block_with_lang() {
    assert_eq!(code_block("fn main() {}", "rust"), "```rust\nfn main() {}\n```");
}

#[test]
fn code_block_default_lang_is_empty() {
    assert_eq!(code_block("plain", ""), "```\nplain\n```");
}

#[test]
fn quote_prefixes_each_line() {
    assert_eq!(quote("one\ntwo"), "> one\n> two");
}

#[test]
fn truncate_caps_bytes() {
    assert_eq!(truncate("abcdefgh", 4).unwrap(), "abcd...");
}

#[test]
fn truncate_respects_char_boundary() {
    let out = truncate("a\u{1F600}bc", 3).unwrap();
    assert!(out.ends_with("..."));
    assert_eq!(out, "a...");
}

#[test]
fn truncate_noop_when_short() {
    assert_eq!(truncate("short", 100).unwrap(), "short");
}

#[test]
fn sequence_gram_wraps_mermaid_and_adds_header_when_missing() {
    let out = sequence_gram("participant A\nA->>B: Hi");
    assert!(out.starts_with("```mermaid\nsequenceDiagram\n"));
    assert!(out.contains("participant A"));
    assert!(out.ends_with("```\n") || out.ends_with("```"));
}

#[test]
fn sequence_gram_preserves_existing_header() {
    let out = sequence_gram("sequenceDiagram\n  A->>B: Hi");
    assert!(out.starts_with("```mermaid\nsequenceDiagram\n  A->>B: Hi\n```"));
}

// ---------------------------------------------------------------------

#[test]
fn bullet_strips_existing_marks_and_blank_lines() {
    assert_eq!(bullet_text("- a\n\n * b\n   \n"), "- a\n- b");
}

#[test]
fn negative_widths_are_refused() {
    assert_eq!(indent("a", -1).unwrap_err(), "indent: negative width");
    assert_eq!(truncate("a", -2).unwrap_err(), "truncate: negative length");
}

#[test]
fn sequence_gram_drops_blank_lines_around() {
    assert_eq!(sequence_gram("\n\n  A->>B: x\n \n"), "```mermaid\nsequenceDiagram\n  A->>B: x\n```");
    assert_eq!(sequence_gram(""), "```mermaid\nsequenceDiagram\n```");
}
