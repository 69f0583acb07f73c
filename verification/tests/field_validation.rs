use lattice::fields::{Field, FieldKind, OptionItem, Validation, ValueType};
use lattice::validation::{
    validate_field, validate_task, validate_task_for, FieldError, FieldErrorKind, Json, ValidationError,
};
use lattice::entities::{FieldValue, Task, Template};
use lattice::time::Timestamp;

fn s(v: &str) -> Json {
    Json { kind: ValueType::String, json: format!("{v:?}"), text: Some(v.to_string()), items: vec![] }
}

fn arr(items: &[&str]) -> Json {
    Json {
        kind: ValueType::Array,
        json: format!("{items:?}"),
        text: None,
        items: items.iter().map(|x| (ValueType::String, Some(x.to_string()))).collect(),
    }
}

fn textarea_field(required: bool) -> Field {
    Field {
        id: "name".into(),
        kind: FieldKind::Textarea,
        label: "Name".into(),
        help: None,
        placeholder: None,
        required,
        default: None,
        show_if: None,
        validation: Validation { min_length: Some(2), max_length: Some(5), regex: None, allowed_values: None },
        options: vec![],
    }
}

#[test]
fn required_missing_is_error() {
    let f = textarea_field(true);
    let errs = validate_field(&f, None);
    assert_eq!(errs.len(), 1);
    assert_eq!(errs[0].kind, FieldErrorKind::Required);
}

#[test]
fn optional_missing_is_ok() {
    let f = textarea_field(false);
    assert!(validate_field(&f, None).is_empty());
}

#[test]
fn string_length_bounds() {
    let f = textarea_field(true);
    assert!(!validate_field(&f, Some(&s("a"))).is_empty());
    assert!(validate_field(&f, Some(&s("abcd"))).is_empty());
    assert!(!validate_field(&f, Some(&s("abcdef"))).is_empty());
}

#[test]
fn select_rejects_unknown_option() {
    let mut f = textarea_field(true);
    f.kind = FieldKind::Select;
    f.validation = Validation::none();
    f.options = vec![OptionItem::Bare("a".into()), OptionItem::Bare("b".into())];
    assert!(validate_field(&f, Some(&s("a"))).is_empty());
    let errs = validate_field(&f, Some(&s("c")));
    assert_eq!(errs.len(), 1);
    assert!(matches!(errs[0].kind, FieldErrorKind::NotAllowed { .. }));
}

#[test]
fn multiselect_flags_each_bad_item() {
    let f = Field {
        id: "tags".into(),
        kind: FieldKind::Multiselect,
        label: "Tags".into(),
        help: None,
        placeholder: None,
        required: true,
        default: None,
        show_if: None,
        validation: Validation::none(),
        options: vec![OptionItem::Bare("a".into()), OptionItem::Bare("b".into())],
    };
    let errs = validate_field(&f, Some(&arr(&["a", "c", "d"])));
    assert_eq!(errs.len(), 2);
}

#[test]
fn regex_pattern_applies() {
    let mut f = textarea_field(true);
    f.validation = Validation { min_length: None, max_length: None, regex: Some("^[A-Z]+-[0-9]+$".into()), allowed_values: None };
    assert!(validate_field(&f, Some(&s("PROJ-123"))).is_empty());
    let errs = validate_field(&f, Some(&s("lowercase-9")));
    assert_eq!(errs.len(), 1);
    assert!(matches!(errs[0].kind, FieldErrorKind::PatternMismatch { .. }));
}

fn base_fields() -> Vec<Field> {
    vec![
        Field {
            id: "goals".into(),
            kind: FieldKind::Multiselect,
            label: "Goals".into(),
            help: None,
            placeholder: None,
            required: true,
            default: None,
            show_if: None,
            validation: Validation::none(),
            options: vec![OptionItem::Bare("performance".into()), OptionItem::Bare("readability".into())],
        },
        Field {
            id: "perf_budget_ms".into(),
            kind: FieldKind::Textarea,
            label: "Perf budget".into(),
            help: None,
            placeholder: None,
            required: true,
            default: None,
            show_if: Some("'performance' in task.fields.goals".into()),
            validation: Validation::none(),
            options: vec![],
        },
    ]
}

fn ctx(goals: Option<&str>) -> String {
    let fields = match goals {
        Some(g) => format!("{{\"goals\":[\"{g}\"]}}"),
        None => "{}".to_string(),
    };
    format!("{{\"task\":{{\"fields\":{fields}}},\"template\":{{\"id\":\"x\",\"name\":\"t\",\"version\":1}},\"derived\":{{}}}}")
}

#[test]
fn required_field_missing_raises() {
    let fs = base_fields();
    let v = validate_task(&fs, &vec![], &ctx(None)).unwrap_err();
    assert_eq!(v.errors.len(), 1);
    assert_eq!(v.errors[0].field_id, "goals");
}

#[test]
fn show_if_hides_field_even_when_required() {
    let fs = base_fields();
    let vals = vec![("goals".to_string(), arr(&["readability"]))];
    validate_task(&fs, &vals, &ctx(Some("readability"))).unwrap();
}

#[test]
fn show_if_surfaces_required_when_visible() {
    let fs = base_fields();
    let vals = vec![("goals".to_string(), arr(&["performance"]))];
    let v = validate_task(&fs, &vals, &ctx(Some("performance"))).unwrap_err();
    assert!(v.errors.iter().any(|e| e.field_id == "perf_budget_ms"));
}

#[test]
fn invalid_show_if_expression_is_reported() {
    let mut fs = base_fields();
    fs[1].show_if = Some("this is (( not valid".into());
    let vals = vec![("goals".to_string(), arr(&["performance"]))];
    let v = validate_task(&fs, &vals, &ctx(Some("performance"))).unwrap_err();
    assert!(v.errors.iter().any(|e| e.field_id == "perf_budget_ms"));
}

#[test]
fn field_error_is_displayable() {
    let e = FieldError::new("name", FieldErrorKind::Required);
    assert_eq!(e.to_string(), "[name] required field is missing");
}

#[test]
fn validation_error_wraps_many() {
    let v = ValidationError::new(vec![
        FieldError::new("a", FieldErrorKind::Required),
        FieldError::new("b", FieldErrorKind::TooShort { actual: 1, min: 5 }),
    ]);
    assert_eq!(v.errors.len(), 2);
    assert_eq!(v.to_string(), "validation failed with 2 error(s)");
}

// ---------------------------------------------------------------------

#[test]
fn allowed_values_compare_json_text() {
    let mut f = textarea_field(false);
    f.validation = Validation { min_length: None, max_length: None, regex: None, allowed_values: Some(vec!["\"ok\"".into()]) };
    assert!(validate_field(&f, Some(&s("ok"))).is_empty());
    let errs = validate_field(&f, Some(&s("no")));
    assert_eq!(errs.len(), 1);
    assert_eq!(errs[0].kind, FieldErrorKind::NotAllowed { value: "no".into() });
    assert_eq!(errs[0].kind.to_string(), "value `no` is not in the allowed set");
}

#[test]
fn wrong_type_and_bad_regex_are_reported() {
    let mut f = textarea_field(true);
    let num = Json { kind: ValueType::Number, json: "3".into(), text: None, items: vec![] };
    let errs = validate_field(&f, Some(&num));
    assert_eq!(errs[0].kind, FieldErrorKind::WrongType { expected: "string", actual: "number" });
    f.validation = Validation { min_length: None, max_length: None, regex: Some("(".into()), allowed_values: None };
    let errs = validate_field(&f, Some(&s("x")));
    assert_eq!(errs.len(), 1);
    match &errs[0].kind {
        FieldErrorKind::Custom(m) => assert!(m.starts_with("invalid regex `(`: ")),
        _ => panic!("expected a custom error"),
    }
}

#[test]
fn null_counts_as_missing() {
    let f = textarea_field(true);
    let null = Json { kind: ValueType::Null, json: "null".into(), text: None, items: vec![] };
    let errs = validate_field(&f, Some(&null));
    assert_eq!(errs.len(), 1);
    assert_eq!(errs[0].kind.to_string(), "required field is missing");
}

#[test]
fn task_is_checked_against_its_template() {
    let now = Timestamp::parse("2026-04-24T10:00:00Z").unwrap();
    let mut template = Template::new("t", now);
    let mut f = textarea_field(true);
    f.show_if = Some("template.version == 1".into());
    template.fields = vec![f];
    let mut task = Task::new(template.id, template.version, "t", now);
    let err = validate_task_for(&template, &task).unwrap_err();
    assert_eq!(err.errors.len(), 1);
    assert_eq!(err.errors[0].kind, FieldErrorKind::Required);
    task.fields.push((
        "name".to_string(),
        FieldValue { json: "\"abcd\"".to_string(), text: Some("abcd".to_string()) },
    ));
    assert!(validate_task_for(&template, &task).is_ok());
    task.fields[0].1 = FieldValue { json: "[1]".to_string(), text: None };
    let err = validate_task_for(&template, &task).unwrap_err();
    assert!(matches!(err.errors[0].kind, FieldErrorKind::WrongType { .. }));
    template.version = 2;
    assert!(validate_task_for(&template, &task).is_ok());
}
