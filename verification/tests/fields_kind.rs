use lattice::fields::{FieldKind, OptionItem, ValueType};

#[test]
fn markdown_note_has_no_value() {
    assert!(!FieldKind::MarkdownNote.has_value());
    assert!(FieldKind::Text.has_value());
}

#[test]
fn option_item_id_and_label() {
    let bare = OptionItem::Bare("alpha".to_string());
    assert_eq!(bare.id(), "alpha");
    assert_eq!(bare.label(), "alpha");
    let labeled = OptionItem::Labeled { id: "a".to_string(), label: "Alpha".to_string() };
    assert_eq!(labeled.id(), "a");
    assert_eq!(labeled.label(), "Alpha");
}

#[test]
fn value_type_names() {
    assert_eq!(ValueType::Bool.as_static(), "boolean");
    assert_eq!(ValueType::Object.as_static(), "object");
    assert_eq!(FieldKind::SequenceGram.tag(), "sequence-gram");
    assert!(FieldKind::Gherkin.is_multiline());
    assert!(!FieldKind::Select.is_multiline());
}
