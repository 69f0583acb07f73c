use lattice::fields::FieldKind;
use lattice::form::FormField;
use lattice::submit::{
    check_task_form, check_template_form, collect_values, no_fields_declared, parse_field_value,
    prompt_file_name, stored_value, task_fields, Typed, apply_template_edit, template_edit_parts,
};
use lattice::entities::Template;
use lattice::time::Timestamp;
use lattice::ui::{FormState, FormSubmit};

fn field_row(label: &str, id: &str, kind: FieldKind, value: &str, required: bool) -> FormField {
    let mut f = FormField::plain(label, value, required, false);
    f.field_id = Some(id.to_string());
    f.kind = Some(kind);
    f
}

fn form_of(fields: Vec<FormField>) -> FormState {
    FormState {
        title: "New task".to_string(),
        fields,
        cursor: 0,
        submit: FormSubmit::CreateTemplate,
    }
}

#[test]
fn blank_optional_value_is_left_out() {
    assert_eq!(parse_field_value(FieldKind::Textarea, "   ", false), Ok(None));
}

#[test]
fn blank_required_value_is_refused() {
    assert_eq!(
        parse_field_value(FieldKind::Select, " \n ", true),
        Err("required".to_string())
    );
}

#[test]
fn text_value_is_kept_as_typed() {
    assert_eq!(
        parse_field_value(FieldKind::Textarea, "  hello world ", true),
        Ok(Some(Typed::Text("  hello world ".to_string())))
    );
}

#[test]
fn multiselect_value_splits_on_commas() {
    assert_eq!(
        parse_field_value(FieldKind::Multiselect, " a, b ,, c ", false),
        Ok(Some(Typed::List(vec![
            "a".to_string(),
            "b".to_string(),
            "c".to_string()
        ])))
    );
}

#[test]
fn collect_skips_name_row_and_rows_without_id() {
    let form = form_of(vec![
        FormField::plain("Name", "task one", true, false),
        FormField::plain("Note", "free text", false, false),
        field_row("Goal", "goal", FieldKind::Textarea, "ship it", true),
        field_row("Tags", "tags", FieldKind::Multiselect, "x,y", false),
        field_row("Extra", "extra", FieldKind::Textarea, "", false),
    ]);
    let got = collect_values(&form).unwrap();
    assert_eq!(
        got,
        vec![
            ("goal".to_string(), Typed::Text("ship it".to_string())),
            (
                "tags".to_string(),
                Typed::List(vec!["x".to_string(), "y".to_string()])
            ),
        ]
    );
}

#[test]
fn collect_reports_first_refused_row() {
    let form = form_of(vec![
        FormField::plain("Name", "task one", true, false),
        field_row("Goal", "goal", FieldKind::Textarea, "ok", true),
        field_row("Scope", "scope", FieldKind::Textarea, "  ", true),
        field_row("Risk", "risk", FieldKind::Textarea, "", true),
    ]);
    assert_eq!(
        collect_values(&form),
        Err((2, "field `Scope`: required".to_string()))
    );
}

#[test]
fn collect_of_name_only_form_is_empty() {
    let form = form_of(vec![FormField::plain("Name", "", true, false)]);
    assert_eq!(collect_values(&form), Ok(vec![]));
}

#[test]
fn prompt_file_gets_md_suffix() {
    assert_eq!(prompt_file_name("my prompt"), Some("my_prompt.md".to_string()));
    assert_eq!(prompt_file_name(" notes.md "), Some("notes.md".to_string()));
    assert_eq!(prompt_file_name("../"), None);
    assert_eq!(prompt_file_name(""), None);
}

#[test]
fn template_form_needs_name_then_prompt() {
    let form = form_of(vec![
        FormField::plain("Name", "  ", true, false),
        FormField::plain("Fields", "", false, true),
        FormField::plain("Prompt", "", true, true),
    ]);
    assert_eq!(check_template_form(&form), Err("name is required".to_string()));
    let form = form_of(vec![
        FormField::plain("Name", "bug", true, false),
        FormField::plain("Fields", "x", false, true),
    ]);
    assert_eq!(check_template_form(&form), Err("prompt jinja is required".to_string()));
    let form = form_of(vec![
        FormField::plain("Name", "bug", true, false),
        FormField::plain("Fields", "x", false, true),
        FormField::plain("Prompt", "hi {{ task.name }}", true, true),
    ]);
    assert_eq!(
        check_template_form(&form),
        Ok(("bug".to_string(), "x".to_string(), "hi {{ task.name }}".to_string()))
    );
}

#[test]
fn task_form_needs_name_before_values() {
    let form = form_of(vec![
        FormField::plain("Name", "", true, false),
        field_row("Goal", "goal", FieldKind::Textarea, "", true),
    ]);
    assert_eq!(check_task_form(&form), Err((0, "name is required".to_string())));
    let form = form_of(vec![
        FormField::plain("Name", "t", true, false),
        field_row("Goal", "goal", FieldKind::Textarea, "", true),
    ]);
    assert_eq!(check_task_form(&form), Err((1, "field `Goal`: required".to_string())));
}

#[test]
fn stored_values_are_json() {
    let v = stored_value(&Typed::Text("say \"hi\"".to_string()));
    assert_eq!(v.json, "\"say \\\"hi\\\"\"");
    assert_eq!(v.text.as_deref(), Some("say \"hi\""));
    let v = stored_value(&Typed::List(vec!["a".to_string(), "b".to_string()]));
    assert_eq!(v.json, "[\"a\",\"b\"]");
    assert_eq!(v.text, None);
    let v = stored_value(&Typed::List(vec![]));
    assert_eq!(v.json, "[]");
}

#[test]
fn task_fields_are_ordered_by_id_last_value_wins() {
    let out = task_fields(&vec![
        ("zeta".to_string(), Typed::Text("1".to_string())),
        ("alpha".to_string(), Typed::Text("2".to_string())),
        ("zeta".to_string(), Typed::Text("3".to_string())),
    ]);
    let ids: Vec<&str> = out.iter().map(|(k, _)| k.as_str()).collect();
    assert_eq!(ids, vec!["alpha", "zeta"]);
    assert_eq!(out[1].1.json, "\"3\"");
}

#[test]
fn comment_only_fields_text_declares_nothing() {
    assert!(no_fields_declared(""));
    assert!(no_fields_declared("  \n"));
    assert!(no_fields_declared("# [[fields]]\n  # id = \"x\"\n\n"));
    assert!(!no_fields_declared("# hint\n[[fields]]\nid = \"x\""));
}

#[test]
fn template_edit_takes_rows_and_bumps_version() {
    let form = form_of(vec![
        FormField::plain("Name", "Renamed", true, false),
        FormField::plain("Fields", "# none", false, true),
    ]);
    let (name, fields_src, jinja) = template_edit_parts(&form);
    assert_eq!(name.as_deref(), Some("Renamed"));
    assert_eq!(fields_src, "# none");
    assert_eq!(jinja, "");
    let t0 = Timestamp::parse("2026-01-01T00:00:00Z").unwrap();
    let t1 = Timestamp::parse("2026-02-01T00:00:00Z").unwrap();
    let mut t = Template::new("Old", t0);
    let id = t.id;
    assert!(apply_template_edit(&mut t, name, vec![], "".into(), "hi {{ now }}".into(), t1));
    assert_eq!(t.name, "Renamed");
    assert_eq!(t.version, 2);
    assert_eq!(t.updated_at, t1);
    assert_eq!(t.created_at, t0);
    assert_eq!(t.id, id);
    assert_eq!(t.prompt.template.as_deref(), Some("hi {{ now }}"));
    let mut u = Template::new("Keep", t0);
    assert!(apply_template_edit(&mut u, None, vec![], "".into(), "x".into(), t1));
    assert_eq!(u.name, "Keep");
    u.version = u32::MAX;
    assert!(!apply_template_edit(&mut u, Some("Other".into()), vec![], "".into(), "y".into(), t1));
    assert_eq!(u.name, "Keep");
    assert_eq!(u.version, u32::MAX);
}
