use lattice::entities::{FieldValue, PromptSpec, Task, Template};
use lattice::prompt::{
    check_context, derived_field_values, json_quote, render, render_scope, TaskScope, TemplateScope,
};
use lattice::time::Timestamp;
use lattice::ui::canonical_template;
use lattice::prompt::{bullet_of, code_block_of, BlockKeywords, FilterArg};

fn fixtures() -> (Template, Task) {
    let now = Timestamp::parse("2026-04-24T10:00:00Z").unwrap();
    let mut template = Template::new("bug-fix", now);
    template.prompt = PromptSpec {
        template: Some("hello {{ task.fields.ticket }} ({{ template.version }})".into()),
    };
    let mut task = Task::new(template.id, template.version, "t", now);
    task.fields.push((
        "ticket".to_string(),
        FieldValue {
            json: "\"PROJ-123\"".to_string(),
            text: Some("PROJ-123".to_string()),
        },
    ));
    (template, task)
}

#[test]
fn renders_simple_prompt() {
    let (template, task) = fixtures();
    let now = Timestamp::parse("2026-04-24T12:00:00Z").unwrap();
    let out = render(&template, &task, now).unwrap();
    assert_eq!(out, "hello PROJ-123 (1)");
}

#[test]
fn strict_mode_errors_on_undefined() {
    let (mut template, task) = fixtures();
    template.prompt = PromptSpec {
        template: Some("{{ task.fields.not_there }}".into()),
    };
    let now = Timestamp::parse("2026-04-24T12:00:00Z").unwrap();
    assert!(render(&template, &task, now).is_err());
}

#[test]
fn scope_is_valid_json_with_documented_names() {
    let (template, task) = fixtures();
    let now = Timestamp::parse("2026-04-24T12:00:00Z").unwrap();
    let text = render_scope(&template, &task, now);
    let v: serde_json::Value = serde_json::from_str(&text).unwrap();
    assert_eq!(v["task"]["name"], "t");
    assert_eq!(v["task"]["id"], task.id.to_string());
    assert_eq!(v["task"]["fields"]["ticket"], "PROJ-123");
    assert_eq!(v["template"]["name"], "bug-fix");
    assert_eq!(v["template"]["version"], 1);
    assert_eq!(v["now"], now.to_rfc3339());
    assert_eq!(v["task"]["created_at"], task.created_at.to_rfc3339());
    assert!(v["derived"].as_object().unwrap().is_empty());
}

#[test]
fn json_quote_escapes_like_serde_json() {
    for s in ["plain", "quote \" here", "back\\slash", "line\nbreak\ttab\r", "\u{1}\u{8}\u{c}\u{1f}", "ünï ✓"] {
        assert_eq!(json_quote(s), serde_json::to_string(s).unwrap());
    }
    assert_eq!(json_quote("a\u{1}"), "\"a\\u0001\"");
}

#[test]
fn derived_values_become_json() {
    let out = derived_field_values(&vec![
        ("head".to_string(), Some("dead\"beef".to_string())),
        ("proxy".to_string(), None),
    ]);
    assert_eq!(out[0].0, "head");
    assert_eq!(out[0].1.json, "\"dead\\\"beef\"");
    assert_eq!(out[0].1.text.as_deref(), Some("dead\"beef"));
    assert_eq!(out[1].1.json, "null");
    assert_eq!(out[1].1.text, None);
}

#[test]
fn scopes_carry_ids_and_versions() {
    let (template, task) = fixtures();
    let ts = TemplateScope::of(&template);
    assert_eq!(ts.id, template.id.to_string());
    assert_eq!(ts.version, 1);
    let ks = TaskScope::of(&task);
    assert_eq!(ks.name, "t");
    assert_eq!(ks.fields.len(), 1);
}

#[test]
fn check_context_holds_fields_template_and_derived() {
    let (template, mut task) = fixtures();
    task.derived.push((
        "head".to_string(),
        FieldValue {
            json: "\"abc\"".to_string(),
            text: Some("abc".to_string()),
        },
    ));
    let v: serde_json::Value = serde_json::from_str(&check_context(&template, &task)).unwrap();
    assert_eq!(v["task"]["fields"]["ticket"], "PROJ-123");
    assert_eq!(v["template"]["version"], 1);
    assert_eq!(v["template"]["name"], "bug-fix");
    assert_eq!(v["derived"]["head"], "abc");
}

#[test]
fn filters_are_installed_for_rendering() {
    let (mut template, task) = fixtures();
    let now = Timestamp::parse("2026-04-24T12:00:00Z").unwrap();
    template.prompt = PromptSpec {
        template: Some(
            "{{ task.fields.ticket | quote }}|{{ task.fields.ticket | truncate(4) }}|{{ task.fields.ticket | code_block(lang=\"txt\") }}|{{ task.fields.ticket | bullet }}".into(),
        ),
    };
    let out = render(&template, &task, now).unwrap();
    assert_eq!(out, "> PROJ-123|PROJ...|```txt\nPROJ-123\n```|- PROJ-123");
}

#[test]
fn bullet_filter_lists_items() {
    let (mut template, mut task) = fixtures();
    task.fields.push((
        "items".to_string(),
        FieldValue { json: "[\"a\",\"b\"]".to_string(), text: None },
    ));
    template.prompt = PromptSpec { template: Some("{{ task.fields.items | bullet }}".into()) };
    let now = Timestamp::parse("2026-04-24T12:00:00Z").unwrap();
    assert_eq!(render(&template, &task, now).unwrap(), "- a\n- b");
}

#[test]
fn bad_filter_arguments_are_errors() {
    let (mut template, task) = fixtures();
    let now = Timestamp::parse("2026-04-24T12:00:00Z").unwrap();
    template.prompt = PromptSpec { template: Some("{{ task.fields.ticket | indent(-1) }}".into()) };
    assert!(render(&template, &task, now).is_err());
    template.prompt = PromptSpec {
        template: Some("{{ task.fields.ticket | code_block(other=1) }}".into()),
    };
    assert!(render(&template, &task, now).is_err());
}

#[test]
fn missing_body_renders_the_canonical_skeleton() {
    let (mut template, task) = fixtures();
    template.prompt = PromptSpec { template: None };
    let now = Timestamp::parse("2026-04-24T12:00:00Z").unwrap();
    let without = render(&template, &task, now);
    template.prompt = PromptSpec { template: Some(canonical_template().to_string()) };
    assert_eq!(without, render(&template, &task, now));
}

#[test]
fn bullet_of_each_kind_of_value() {
    assert_eq!(bullet_of(&FilterArg::Text("a\n\n* b\n".into())), "- a\n- b");
    assert_eq!(bullet_of(&FilterArg::Items(vec!["x".into(), "y z".into()])), "- x\n- y z");
    assert_eq!(bullet_of(&FilterArg::Other("42".into())), "- 42");
    assert_eq!(bullet_of(&FilterArg::Items(vec![])), "");
}

#[test]
fn code_block_of_uses_the_lang_given() {
    let k = BlockKeywords { lang: Some("rust".into()), extra: None };
    assert_eq!(code_block_of("fn f() {}", k).unwrap(), "```rust\nfn f() {}\n```");
    let k = BlockKeywords { lang: None, extra: None };
    assert_eq!(code_block_of("x", k).unwrap(), "```\nx\n```");
    let k = BlockKeywords {
        lang: None,
        extra: Some(minijinja::Error::new(minijinja::ErrorKind::TooManyArguments, "x")),
    };
    assert!(code_block_of("x", k).is_err());
}
