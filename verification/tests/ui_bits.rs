use lattice::fields::FieldKind;
use lattice::ui::{
    canonical_template, format_field_label, sanitize_filename, wrapped_row_count, Screen, Toast,
    ToastLevel,
};

#[test]
fn wrapped_row_count_counts_blank_lines_as_one() {
    assert_eq!(wrapped_row_count("", 20), 1);
    assert_eq!(wrapped_row_count("\n\n", 20), 3);
}

#[test]
fn wrapped_row_count_breaks_long_lines() {
    assert_eq!(wrapped_row_count(&"x".repeat(21), 10), 3);
    assert_eq!(wrapped_row_count(&format!("{a}\n{a}", a = "x".repeat(15)), 10), 4);
}

#[test]
fn wrapped_row_count_survives_zero_width() {
    assert_eq!(wrapped_row_count("hello", 0), 1);
}

#[test]
fn wrapped_row_count_counts_chars_not_bytes() {
    assert_eq!(wrapped_row_count("ééé", 3), 1);
    assert_eq!(wrapped_row_count("abcd", 3), 2);
}

#[test]
fn canonical_has_all_sections() {
    let s = canonical_template();
    for h in [
        "## Context",
        "## Inputs",
        "## Constraints",
        "## Acceptance Criteria",
        "## Deliverables",
        "## References",
    ] {
        assert!(s.contains(h), "missing section {h}");
    }
}

#[test]
fn sanitize_keeps_safe_characters() {
    assert_eq!(sanitize_filename("  my prompt.md "), "my_prompt.md");
    assert_eq!(sanitize_filename("../etc/passwd"), "etcpasswd");
    assert_eq!(sanitize_filename("..."), "");
    assert_eq!(sanitize_filename("   "), "");
    assert_eq!(sanitize_filename("a*b?c"), "abc");
    assert_eq!(sanitize_filename("_x_"), "x");
}

#[test]
fn screens_toasts_and_labels() {
    assert_eq!(Screen::Templates.label(), "Templates");
    assert_eq!(Screen::tabs(), vec![Screen::Templates, Screen::Tasks, Screen::Info]);
    let t = Toast::new(ToastLevel::Warn, "careful");
    assert_eq!(t.text, "careful");
    assert_eq!(format_field_label("Body", FieldKind::Textarea), "Body [textarea]");
}

#[test]
fn sanitized_name_is_never_a_dotfile() {
    assert_eq!(sanitize_filename("_.a"), "a");
    assert_eq!(sanitize_filename(" ._._hidden_._ "), "hidden");
    assert_eq!(sanitize_filename("a._b"), "a._b");
    assert_eq!(sanitize_filename("/"), "");
    assert_eq!(sanitize_filename(" my prompt "), "my_prompt");
}
