use lattice::entities::{FieldValue, Task, Template};
use lattice::fields::{Field, FieldKind, OptionItem, Validation};
use lattice::form::FormField;
use lattice::ids::TemplateId;
use lattice::model::{update, Cmd, Model, Msg};
use lattice::time::Timestamp;
use lattice::ui::{FormState, FormSubmit, Screen, ToastLevel};

fn now() -> Timestamp {
    Timestamp::parse("2026-04-24T10:00:00Z").unwrap()
}

fn textarea(id: &str, label: &str, required: bool) -> Field {
    Field {
        id: id.to_string(),
        kind: FieldKind::Textarea,
        label: label.to_string(),
        help: None,
        placeholder: None,
        required,
        default: None,
        show_if: None,
        validation: Validation::none(),
        options: Vec::new(),
    }
}

fn multiline_field(value: &str, caret: usize) -> FormField {
    let mut f = FormField::plain("body", value, false, true);
    f.set_caret(caret);
    f
}

#[test]
fn update_tab_cycle() {
    let mut m = Model::new();
    assert_eq!(m.screen, Screen::Templates);
    update(&mut m, Msg::NextTab);
    assert_eq!(m.screen, Screen::Tasks);
    update(&mut m, Msg::PrevTab);
    assert_eq!(m.screen, Screen::Templates);
}

#[test]
fn open_create_task_builds_one_row_per_template_field() {
    let mut m = Model::new();
    let mut tpl = Template::new("refactor", now());
    tpl.fields.push(textarea("module", "Target module", true));
    tpl.fields.push(textarea("description", "Description", false));
    let tid = tpl.id;
    m.templates.push(tpl);
    m.selected_template = Some(tid);

    update(&mut m, Msg::OpenCreateTask);
    let form = m.form.expect("form should open");
    assert_eq!(form.fields.len(), 3);
    assert_eq!(form.fields[0].label, "Name");
    assert_eq!(form.fields[1].field_id.as_deref(), Some("module"));
    assert_eq!(form.fields[1].kind, Some(FieldKind::Textarea));
    assert!(form.fields[1].multiline);
    assert!(form.fields[1].required);
    assert_eq!(form.fields[2].field_id.as_deref(), Some("description"));
    assert_eq!(form.fields[2].kind, Some(FieldKind::Textarea));
    assert!(form.fields[2].multiline);
}

#[test]
fn open_create_task_warns_without_templates() {
    let mut m = Model::new();
    update(&mut m, Msg::OpenCreateTask);
    assert!(m.form.is_none());
    assert!(m.picker.is_none());
    assert_eq!(m.toasts.len(), 1);
}

#[test]
fn open_create_task_opens_picker_with_multiple_templates() {
    let mut m = Model::new();
    m.templates.push(Template::new("alpha", now()));
    m.templates.push(Template::new("beta", now()));
    update(&mut m, Msg::OpenCreateTask);
    assert!(m.form.is_none(), "form must not open directly");
    let picker = m.picker.as_ref().expect("picker should be open");
    assert_eq!(picker.items.len(), 2);
    assert!(picker.items[0].label.starts_with("alpha"));
}

#[test]
fn template_picker_accept_opens_form() {
    let mut m = Model::new();
    m.templates.push(Template::new("alpha", now()));
    m.templates.push(Template::new("beta", now()));
    update(&mut m, Msg::OpenCreateTask);
    update(&mut m, Msg::PickerMove(1));
    let cmd = update(&mut m, Msg::PickerAccept).expect("should dispatch");
    let Cmd::Dispatch(inner) = cmd else {
        panic!("expected Dispatch");
    };
    let expected_tid = m.templates[1].id;
    update(&mut m, inner);
    assert!(m.picker.is_none());
    let form = m.form.as_ref().expect("form should open on accept");
    let FormSubmit::CreateTask(tid) = form.submit else {
        panic!("unexpected submit");
    };
    assert_eq!(tid, expected_tid);
}

#[test]
fn template_picker_cancel_closes_without_form() {
    let mut m = Model::new();
    m.templates.push(Template::new("alpha", now()));
    m.templates.push(Template::new("beta", now()));
    update(&mut m, Msg::OpenCreateTask);
    update(&mut m, Msg::PickerCancel);
    assert!(m.picker.is_none());
    assert!(m.form.is_none());
}

#[test]
fn open_create_task_single_template_skips_picker() {
    let mut m = Model::new();
    m.templates.push(Template::new("solo", now()));
    update(&mut m, Msg::OpenCreateTask);
    assert!(m.picker.is_none());
    assert!(m.form.is_some(), "should open the form directly");
}

#[test]
fn open_create_template_form_has_fields_block() {
    let mut m = Model::new();
    update(&mut m, Msg::OpenCreateTemplate);
    let form = m.form.expect("form should open");
    assert_eq!(form.fields.len(), 3);
    assert!(form.fields[1].label.starts_with("Fields"));
    assert!(form.fields[1].multiline);
}

#[test]
fn palette_accept_produces_command() {
    let mut m = Model::new();
    update(&mut m, Msg::PalToggle);
    for c in "quit".chars() {
        update(&mut m, Msg::PalInput(c));
    }
    let cmd = update(&mut m, Msg::PalAccept);
    assert!(matches!(cmd, Some(Cmd::Dispatch(Msg::Quit))));
    assert!(!m.palette_open);
}

#[test]
fn input_char_via_msg_inserts_at_caret() {
    let mut m = Model::new();
    m.form = Some(FormState {
        title: "t".into(),
        fields: vec![multiline_field("hello", 2)],
        cursor: 0,
        submit: FormSubmit::CreateTemplate,
    });
    update(&mut m, Msg::FormInputChar('X'));
    let f = &m.form.as_ref().unwrap().fields[0];
    assert_eq!(f.value, "heXllo");
    assert_eq!(f.caret, 3);
}

#[test]
fn form_next_lands_caret_at_end_of_new_field() {
    let mut m = Model::new();
    m.form = Some(FormState {
        title: "t".into(),
        fields: vec![
            FormField::plain("a", "", false, false),
            FormField::plain("b", "hello", false, true),
        ],
        cursor: 0,
        submit: FormSubmit::CreateTemplate,
    });
    update(&mut m, Msg::FormNext);
    let f = &m.form.as_ref().unwrap();
    assert_eq!(f.cursor, 1);
    assert_eq!(f.fields[1].caret, 5);
}

#[test]
fn open_save_task_prompt_opens_form() {
    let mut m = Model::new();
    let t = Task::new(TemplateId::new(), 1, "demo", now());
    let tid = t.id;
    m.tasks = vec![t];
    update(&mut m, Msg::OpenSaveTaskPrompt(tid));
    let form = m.form.as_ref().expect("save form should open");
    assert!(form.title.contains("Save prompt"));
    assert_eq!(form.fields.len(), 1);
    assert_eq!(form.fields[0].label, "File name");
    assert_eq!(form.fields[0].value, "demo");
    assert!(matches!(form.submit, FormSubmit::SaveTaskPromptToFile(t) if t == tid));
}

// ---------------------------------------------------------------------

#[test]
fn picker_label_counts_fields() {
    let mut m = Model::new();
    let mut a = Template::new("alpha", now());
    a.fields.push(textarea("x", "X", false));
    m.templates.push(a);
    let mut b = Template::new("beta", now());
    b.version = 3;
    m.templates.push(b);
    update(&mut m, Msg::OpenCreateTask);
    let p = m.picker.as_ref().unwrap();
    assert_eq!(p.title, "Pick a template");
    assert_eq!(p.items[0].label, "alpha  (v1, 1 field)");
    assert_eq!(p.items[1].label, "beta  (v3, 0 fields)");
    assert_eq!(p.cursor, 0);
}

#[test]
fn read_only_rows_answer_with_a_toast() {
    let mut m = Model::new();
    let mut f = FormField::plain("diagram", "x", false, true);
    f.kind = Some(FieldKind::SequenceGram);
    m.form = Some(FormState {
        title: "t".into(),
        fields: vec![f],
        cursor: 0,
        submit: FormSubmit::CreateTemplate,
    });
    update(&mut m, Msg::FormInputChar('y'));
    assert_eq!(m.form.as_ref().unwrap().fields[0].value, "x");
    assert_eq!(m.toasts.len(), 1);
    assert_eq!(m.toasts[0].level, ToastLevel::Info);
    assert_eq!(m.toasts[0].text, "sequence-gram is read-only here; press F3 to edit");
}

#[test]
fn delete_template_asks_first_then_deletes() {
    let mut m = Model::new();
    let t = Template::new("old", now());
    let id = t.id;
    m.templates.push(t);
    assert!(update(&mut m, Msg::DeleteTemplate(id)).is_none());
    let c = m.confirm.as_ref().unwrap();
    assert_eq!(c.title, "Delete template?");
    assert_eq!(c.message, "Delete template `old`?");
    let cmd = update(&mut m, Msg::AckConfirm).unwrap();
    assert!(m.confirm.is_none());
    let Cmd::Dispatch(inner) = cmd else {
        panic!("expected Dispatch");
    };
    assert!(matches!(update(&mut m, inner), Some(Cmd::DeleteTemplate(x)) if x == id));
}

#[test]
fn edit_task_shows_values_and_falls_back_to_defaults() {
    let mut m = Model::new();
    let mut tpl = Template::new("t", now());
    tpl.fields.push(textarea("a", "A", true));
    let mut sel = textarea("b", "B", false);
    sel.kind = FieldKind::Select;
    sel.options = vec![OptionItem::Bare("x".into()), OptionItem::Labeled { id: "y".into(), label: "Y".into() }];
    sel.default = Some(FieldValue { json: "\"x\"".into(), text: Some("x".into()) });
    tpl.fields.push(sel);
    let mut task = Task::new(tpl.id, 1, "job", now());
    task.fields.push(("a".into(), FieldValue { json: "42".into(), text: None }));
    let id = task.id;
    m.templates.push(tpl);
    m.tasks.push(task);
    update(&mut m, Msg::OpenEditTask(id));
    let f = m.form.as_ref().unwrap();
    assert_eq!(f.title, "Edit task · job");
    assert_eq!(f.fields.len(), 3);
    assert_eq!(f.fields[1].label, "A [textarea]");
    assert_eq!(f.fields[1].value, "42");
    assert_eq!(f.fields[1].caret, 2);
    assert_eq!(f.fields[2].label, "B [select]");
    assert_eq!(f.fields[2].value, "x");
    assert_eq!(f.fields[2].options, vec!["x".to_string(), "y".to_string()]);
    assert!(!f.fields[2].multiline);
}

#[test]
fn code_editor_round_trip_through_the_form() {
    let mut m = Model::new();
    let mut f = FormField::plain("code", "", false, true);
    f.kind = Some(FieldKind::CodeBlocks);
    m.form = Some(FormState { title: "t".into(), fields: vec![f], cursor: 0, submit: FormSubmit::CreateTemplate });
    update(&mut m, Msg::OpenCodeEditor);
    assert_eq!(m.code_editor.as_ref().unwrap().blocks.len(), 1);
    update(&mut m, Msg::CodeEdStartEditCode);
    for c in "fn main() {}".chars() {
        update(&mut m, Msg::CodeEdInputChar(c));
    }
    update(&mut m, Msg::CodeEdConfirm);
    update(&mut m, Msg::CodeEdSave);
    assert!(m.code_editor.is_none());
    let v = &m.form.as_ref().unwrap().fields[0];
    assert!(v.value.contains("```rust\nfn main() {}\n```"));
    assert_eq!(v.caret, v.value.len());
}

#[test]
fn gherkin_steps_out_of_order_are_refused() {
    let mut m = Model::new();
    let mut f = FormField::plain("tests", "", false, true);
    f.kind = Some(FieldKind::Gherkin);
    m.form = Some(FormState { title: "t".into(), fields: vec![f], cursor: 0, submit: FormSubmit::CreateTemplate });
    update(&mut m, Msg::OpenGherkinEditor);
    update(&mut m, Msg::GhEdStartEditSteps);
    for c in "Then it works".chars() {
        update(&mut m, Msg::GhEdInputChar(c));
    }
    update(&mut m, Msg::GhEdConfirm);
    assert_eq!(m.toasts.len(), 1);
    assert_eq!(m.toasts[0].level, ToastLevel::Warn);
    assert!(m.gherkin_editor.as_ref().unwrap().mode != lattice::gherkin::GherkinEditorMode::Browse);
}

#[test]
fn sequence_editor_adds_participants_and_messages() {
    let mut m = Model::new();
    let mut f = FormField::plain("seq", "", false, true);
    f.kind = Some(FieldKind::SequenceGram);
    m.form = Some(FormState { title: "t".into(), fields: vec![f], cursor: 0, submit: FormSubmit::CreateTemplate });
    update(&mut m, Msg::OpenSequenceEditor);
    for name in ["A", "B", "A"] {
        update(&mut m, Msg::SeqEdStartAddParticipant);
        update(&mut m, Msg::SeqEdInputChar(name.chars().next().unwrap()));
        update(&mut m, Msg::SeqEdConfirm);
    }
    update(&mut m, Msg::SeqEdStartAddMessage);
    for c in " hi ".chars() {
        update(&mut m, Msg::SeqEdInputChar(c));
    }
    update(&mut m, Msg::SeqEdConfirm);
    let ed = m.sequence_editor.as_ref().unwrap();
    let d = &ed.diagrams[ed.diagram_cursor];
    assert_eq!(d.participants, vec!["A".to_string(), "B".to_string()]);
    assert_eq!(d.events.len(), 1);
    let lattice::sequence::SequenceEvent::Message { from, to, rel_id, text, .. } = &d.events[0];
    assert_eq!((from.as_str(), to.as_str(), rel_id.as_str(), text.as_str()), ("A", "B", "R1", "hi"));
    assert_eq!(ed.event_cursor, 0);
}

#[test]
fn openapi_editor_parses_enum_and_bounds() {
    let mut m = Model::new();
    let mut f = FormField::plain("api", "", false, true);
    f.kind = Some(FieldKind::OpenApi);
    m.form = Some(FormState { title: "t".into(), fields: vec![f], cursor: 0, submit: FormSubmit::CreateTemplate });
    update(&mut m, Msg::OpenOpenApiEditor);
    update(&mut m, Msg::OaEdTogglePane);
    update(&mut m, Msg::OaEdStartAddSchema);
    for c in "User".chars() {
        update(&mut m, Msg::OaEdInputChar(c));
    }
    update(&mut m, Msg::OaEdConfirm);
    update(&mut m, Msg::OaEdStartAddProp);
    for c in "role".chars() {
        update(&mut m, Msg::OaEdInputChar(c));
    }
    update(&mut m, Msg::OaEdConfirm);
    update(&mut m, Msg::OaEdStartEditPropEnum);
    for c in " a, ,b ,".chars() {
        update(&mut m, Msg::OaEdInputChar(c));
    }
    update(&mut m, Msg::OaEdConfirm);
    update(&mut m, Msg::OaEdStartEditPropMin);
    for c in " -12 ".chars() {
        update(&mut m, Msg::OaEdInputChar(c));
    }
    update(&mut m, Msg::OaEdConfirm);
    update(&mut m, Msg::OaEdStartEditPropMax);
    for c in "x1".chars() {
        update(&mut m, Msg::OaEdInputChar(c));
    }
    update(&mut m, Msg::OaEdConfirm);
    let ed = m.openapi_editor.as_ref().unwrap();
    assert_eq!(ed.mode, lattice::openapi::OpenApiEditorMode::Schemas);
    let p = &ed.schemas[0].properties[0];
    assert_eq!(p.name, "role");
    assert_eq!(p.enum_values, vec!["a".to_string(), "b".to_string()]);
    assert_eq!(p.min, Some(-12));
    assert_eq!(p.max, None);
}
