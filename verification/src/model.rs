//! The screen state of the terminal interface, the messages that change
//! it and the commands it hands back, and `update`: the pure transition
//! from a state and a message to the next state.

use vstd::prelude::*;
use crate::code_blocks::{
    CodeEditorMode, CodeEditorState, blocks_view, parse_blocks, parse_code_blocks, render_blocks,
    render_code_blocks, code_move_block_post, code_input_char_post, code_backspace_post,
    code_confirm_post, code_start_add_block_post, code_start_rename_block_post,
    code_start_edit_language_post, code_start_edit_code_post, code_delete_block_post,
    code_move_caret_post,
};
use crate::cursor::{apply_delta, clamp_delta, cycle_wrap, move_cursor, wrap_index};
use crate::entities::{FieldValue, Task, Template};
use crate::fields::{Field, FieldKind, OptionItem, kind_tag};
use crate::form::{CaretMove, FormField, moved, typed, erased};
use crate::gherkin::{
    GherkinEditorMode, GherkinEditorState, features_view, features_text, parse_features,
    parse_gherkin_features, render_gherkin_features, gh_rejected, gh_accepted,
    gh_move_scenario_post, gh_move_feature_post, gh_input_char_post, gh_backspace_post,
    gh_start_add_scenario_post, gh_start_rename_scenario_post, gh_start_edit_feature_post,
    gh_start_edit_background_post, gh_start_edit_steps_post, gh_delete_scenario_post,
    gh_start_add_feature_post, gh_start_rename_feature_post, gh_delete_feature_post,
    gh_move_caret_post,
};
use crate::ids::{TaskId, TemplateId};
use crate::num::{dec, fmt_u128};
use crate::openapi::{
    OpenApiEditorMode, OpenApiEditorState, contract_text, endpoints_view, parse_contract,
    parse_openapi_contract, render_openapi_contract,
};
use crate::openapi_editor::{
    oa_move_endpoint_post, oa_scroll_preview_post, oa_start_add_endpoint_post,
    oa_delete_endpoint_post, oa_toggle_pane_post, oa_move_schema_post,
    oa_start_schema_prompt_post, oa_delete_schema_post, oa_start_rename_schema_post,
    oa_start_add_prop_post, oa_delete_prop_post, oa_tweak_prop_post, oa_start_rename_prop_post,
    oa_move_prop_post, oa_tweak_endpoint_post, oa_start_edit_path_post, oa_start_edit_info_post,
    oa_input_char_post, oa_backspace_post, oa_confirm_post,
};
use crate::sequence::{
    SequenceEditorMode, SequenceEditorState, diagrams_text, diagrams_view, parse_gram,
    parse_sequence_gram, render_sequence_gram, seq_move_event_post, seq_move_participant_post,
    seq_move_diagram_post, seq_input_char_post, seq_backspace_post,
    seq_start_add_participant_post, seq_start_add_message_post, seq_toggle_dashed_post,
    seq_cycle_end_post, seq_start_edit_edge_context_post, seq_confirm_post,
    seq_delete_event_post, seq_delete_participant_post, seq_start_add_diagram_post,
    seq_start_rename_diagram_post, seq_delete_diagram_post,
};
use crate::text::{append, chars_of, copy_string, eq, pop_char, push_char, string_of, trim_end};
use crate::ui::{FormState, FormSubmit, Screen, Toast, ToastLevel, default_fields_toml_hint};
use crate::utf8::{byte_len, is_boundary, str_byte_len};
use crate::palette::resolve;

verus! {

/// A list to pick from; each item carries the message its choice sends.
#[derive(Clone, Debug)]
pub struct Picker {
    pub title: String,
    pub items: Vec<PickerItem>,
    pub cursor: usize,
}

/// One item of a picker.
#[derive(Clone, Debug)]
pub struct PickerItem {
    pub label: String,
    pub accept: Msg,
}

/// A yes/no question; saying yes sends `accept`.
#[derive(Clone, Debug)]
pub struct ConfirmPrompt {
    pub title: String,
    pub message: String,
    pub accept: Box<Msg>,
}

/// The whole state of the interface.
#[derive(Clone, Debug)]
pub struct Model {
    pub screen: Screen,
    pub prev_screen: Screen,
    pub quitting: bool,
    pub selected_template: Option<TemplateId>,
    pub templates: Vec<Template>,
    pub template_cursor: usize,
    pub tasks: Vec<Task>,
    pub task_cursor: usize,
    pub task_multi_select: Vec<TaskId>,
    /// How far the prompt preview of the current task is scrolled.
    pub task_prompt_scroll: usize,
    pub toasts: Vec<Toast>,
    pub status_message: Option<String>,
    pub palette_open: bool,
    pub palette_input: String,
    pub palette_cursor: usize,
    pub confirm: Option<ConfirmPrompt>,
    pub form: Option<FormState>,
    pub picker: Option<Picker>,
    pub sequence_editor: Option<SequenceEditorState>,
    pub code_editor: Option<CodeEditorState>,
    pub gherkin_editor: Option<GherkinEditorState>,
    pub openapi_editor: Option<OpenApiEditorState>,
}

/// Everything that changes the interface's state.
#[derive(Clone, Debug)]
pub enum Msg {
    Quit,
    GoScreen(Screen),
    NextTab,
    PrevTab,
    ShowHelp,
    PalToggle,
    PalInput(char),
    PalBackspace,
    PalAccept,
    PalMove(isize),
    DismissToast,
    AckConfirm,
    CancelConfirm,
    SetTemplates(Vec<Template>),
    SetTasks(Vec<Task>),
    ToastInfo(String),
    ToastWarn(String),
    ToastError(String),
    TemplateCursor(isize),
    OpenCreateTemplate,
    OpenEditTemplate(TemplateId),
    DeleteTemplate(TemplateId),
    TaskCursor(isize),
    TaskPromptScroll(isize),
    ToggleTaskSelection(TaskId),
    OpenCreateTask,
    OpenCreateTaskWith(TemplateId),
    OpenEditTask(TaskId),
    OpenSaveTaskPrompt(TaskId),
    PickerMove(isize),
    PickerAccept,
    PickerCancel,
    DeleteTask(TaskId),
    FormInputChar(char),
    FormBackspace,
    FormNext,
    FormPrev,
    FormCaretLeft,
    FormCaretRight,
    FormCaretUp,
    FormCaretDown,
    FormCaretHome,
    FormCaretEnd,
    FormSubmit,
    FormCancel,
    OpenSequenceEditor,
    SeqEdCancel,
    SeqEdSave,
    SeqEdMove(isize),
    SeqEdMoveParticipant(isize),
    SeqEdMoveDiagram(isize),
    SeqEdInputChar(char),
    SeqEdBackspace,
    SeqEdStartAddParticipant,
    SeqEdStartAddMessage,
    SeqEdToggleDashed,
    SeqEdCycleFrom(isize),
    SeqEdCycleTo(isize),
    SeqEdStartEditEdgeContext,
    SeqEdConfirm,
    SeqEdDeleteEvent,
    SeqEdDeleteParticipant,
    SeqEdStartAddDiagram,
    SeqEdStartRenameDiagram,
    SeqEdDeleteDiagram,
    OpenCodeEditor,
    CodeEdCancel,
    CodeEdSave,
    CodeEdMoveBlock(isize),
    CodeEdInputChar(char),
    CodeEdBackspace,
    CodeEdConfirm,
    CodeEdStartAddBlock,
    CodeEdStartRenameBlock,
    CodeEdStartEditLanguage,
    CodeEdStartEditCode,
    CodeEdDeleteBlock,
    CodeEdCaretLeft,
    CodeEdCaretRight,
    CodeEdCaretUp,
    CodeEdCaretDown,
    CodeEdCaretHome,
    CodeEdCaretEnd,
    OpenGherkinEditor,
    GhEdCancel,
    GhEdSave,
    GhEdMoveScenario(isize),
    GhEdMoveFeature(isize),
    GhEdInputChar(char),
    GhEdBackspace,
    GhEdConfirm,
    GhEdStartAddScenario,
    GhEdStartRenameScenario,
    GhEdStartEditFeature,
    GhEdStartEditBackground,
    GhEdStartEditSteps,
    GhEdDeleteScenario,
    GhEdStartAddFeature,
    GhEdStartRenameFeature,
    GhEdDeleteFeature,
    GhEdCaretLeft,
    GhEdCaretRight,
    GhEdCaretUp,
    GhEdCaretDown,
    GhEdCaretHome,
    GhEdCaretEnd,
    OpenOpenApiEditor,
    OaEdCancel,
    OaEdSave,
    OaEdMoveEndpoint(isize),
    OaEdScrollPreview(isize),
    OaEdStartAddEndpoint,
    OaEdDeleteEndpoint,
    OaEdTogglePane,
    OaEdMoveSchema(isize),
    OaEdStartAddSchema,
    OaEdDeleteSchema,
    OaEdStartRenameSchema,
    OaEdStartAddProp,
    OaEdDeleteProp,
    OaEdTogglePropRequired,
    OaEdCyclePropType(isize),
    OaEdTogglePropNullable,
    OaEdCyclePropFormat(isize),
    OaEdStartRenameProp,
    OaEdStartEditPropMin,
    OaEdStartEditPropMax,
    OaEdStartEditPropPattern,
    OaEdStartEditPropEnum,
    OaEdMoveProp(isize),
    OaEdCycleMethod(isize),
    OaEdCycleReqBody(isize),
    OaEdCycleRespBody(isize),
    OaEdCycleStatus(isize),
    OaEdCycleReqContentType(isize),
    OaEdStartEditPath,
    OaEdStartEditTitle,
    OaEdStartEditVersion,
    OaEdStartEditBaseUrl,
    OaEdInputChar(char),
    OaEdBackspace,
    OaEdConfirm,
    ConfirmDeleteTemplate(TemplateId),
    ConfirmDeleteTask(TaskId),
}

/// Work that `update` hands back to be done outside.
#[derive(Clone, Debug)]
pub enum Cmd {
    /// Send this message next.
    Dispatch(Msg),
    /// Save what the form holds.
    SubmitForm(FormState),
    DeleteTemplate(TemplateId),
    DeleteTask(TaskId),
}

/// Every caret of the form's rows sits on a character boundary, and the
/// focused row is one of them (row 0 of an empty form).
pub open spec fn form_ok(f: FormState) -> bool {
    &&& forall|i: int| 0 <= i < f.fields.len() ==> (#[trigger] f.fields@[i]).caret_ok()
    &&& (f.cursor < f.fields.len() || f.cursor == 0)
}

impl Model {
    /// The open form and the multi-line editors keep their carets on
    /// character boundaries.
    pub open spec fn wf(&self) -> bool {
        &&& match self.form {
            Some(f) => form_ok(f),
            None => true,
        }
        &&& match self.code_editor {
            Some(ed) => ed.wf(),
            None => true,
        }
        &&& match self.gherkin_editor {
            Some(ed) => ed.wf(),
            None => true,
        }
    }

    /// Whether the model is well formed: the open form's carets on
    /// character boundaries and its cursor on a row, and the editors'
    /// carets on character boundaries.
    pub fn is_wf(&self) -> (r: bool)
        ensures
            r == self.wf(),
    {
        let form_good = match &self.form {
            Some(f) => {
                let mut ok = f.cursor < f.fields.len() || f.cursor == 0;
                let mut i: usize = 0;
                while i < f.fields.len()
                    invariant
                        i <= f.fields.len(),
                        ok == ((f.cursor < f.fields.len() || f.cursor == 0) && forall|j: int|
                            0 <= j < i ==> (#[trigger] f.fields@[j]).caret_ok()),
                    decreases f.fields.len() - i,
                {
                    ok = ok && f.fields[i].caret_is_ok();
                    i = i + 1;
                }
                ok
            },
            None => true,
        };
        let code_good = match &self.code_editor {
            Some(ed) => match &ed.mode {
                CodeEditorMode::EditCode { editor } => editor.caret_is_ok(),
                _ => true,
            },
            None => true,
        };
        let gherkin_good = match &self.gherkin_editor {
            Some(ed) => match &ed.mode {
                GherkinEditorMode::EditBackground { editor } => editor.caret_is_ok(),
                GherkinEditorMode::EditSteps { editor } => editor.caret_is_ok(),
                _ => true,
            },
            None => true,
        };
        form_good && code_good && gherkin_good
    }

    /// The state at start: the Templates screen, nothing loaded or open.
    pub fn new() -> (r: Model)
        ensures
            r.screen == Screen::Templates,
            r.prev_screen == Screen::Templates,
            !r.quitting,
            r.selected_template is None,
            r.templates@.len() == 0,
            r.template_cursor == 0,
            r.tasks@.len() == 0,
            r.task_cursor == 0,
            r.task_multi_select@.len() == 0,
            r.task_prompt_scroll == 0,
            r.toasts@.len() == 0,
            r.status_message is None,
            !r.palette_open,
            r.palette_input@.len() == 0,
            r.palette_cursor == 0,
            r.confirm is None,
            r.form is None,
            r.picker is None,
            r.sequence_editor is None,
            r.code_editor is None,
            r.gherkin_editor is None,
            r.openapi_editor is None,
            r.wf(),
    {
        Model {
            screen: Screen::Templates,
            prev_screen: Screen::Templates,
            quitting: false,
            selected_template: None,
            templates: Vec::new(),
            template_cursor: 0,
            tasks: Vec::new(),
            task_cursor: 0,
            task_multi_select: Vec::new(),
            task_prompt_scroll: 0,
            toasts: Vec::new(),
            status_message: None,
            palette_open: false,
            palette_input: String::new(),
            palette_cursor: 0,
            confirm: None,
            form: None,
            picker: None,
            sequence_editor: None,
            code_editor: None,
            gherkin_editor: None,
            openapi_editor: None,
        }
    }

    /// The tasks the Tasks screen lists.
    pub fn tasks_for_selected_project(&self) -> (r: &Vec<Task>)
        ensures
            r == &self.tasks,
    {
        &self.tasks
    }

    /// Keeps the template cursor on a template (at 0 with none).
    pub fn ensure_selection_consistency(&mut self)
        ensures
            *final(self) == (Model {
                template_cursor: if old(self).template_cursor < old(self).templates.len() {
                    old(self).template_cursor
                } else if old(self).templates.len() == 0 {
                    0
                } else {
                    (old(self).templates.len() - 1) as usize
                },
                ..*old(self)
            }),
    {
        let n = self.templates.len();
        if self.template_cursor >= n {
            self.template_cursor = if n == 0 {
                0
            } else {
                n - 1
            };
        }
    }
}

// ---------------------------------------------------------------------
// Form rows.

/// `f` is a row as `FormField::plain` makes it.
pub open spec fn plain_row(
    f: FormField,
    label: Seq<char>,
    value: Seq<char>,
    required: bool,
    multiline: bool,
) -> bool {
    &&& f.label@ == label
    &&& f.value@ == value
    &&& f.required == required
    &&& f.multiline == multiline
    &&& f.caret == byte_len(value)
    &&& f.field_id is None
    &&& f.kind is None
    &&& f.options@.len() == 0
}

/// The ids of options.
pub open spec fn option_ids(os: Seq<OptionItem>) -> Seq<Seq<char>> {
    os.map_values(
        |o: OptionItem|
            match o {
                OptionItem::Bare(s) => s@,
                OptionItem::Labeled { id, .. } => id@,
            },
    )
}

pub open spec fn strings_view(s: Seq<String>) -> Seq<Seq<char>> {
    s.map_values(|x: String| x@)
}

/// The text a form shows for a default value: the string itself, nothing
/// for null or no default, the JSON text otherwise.
pub open spec fn default_text(v: Option<FieldValue>) -> Seq<char> {
    match v {
        None => Seq::empty(),
        Some(fv) => match fv.text {
            Some(t) => t@,
            None => if fv.json@ == "null"@ {
                Seq::empty()
            } else {
                fv.json@
            },
        },
    }
}

/// The label of a template field's row: its label and its kind.
pub open spec fn field_label(tf: Field) -> Seq<char> {
    tf.label@ + " ["@ + kind_tag(tf.kind) + "]"@
}

/// `f` is the row for the template field `tf`, showing `value`.
pub open spec fn template_row(f: FormField, tf: Field, value: Seq<char>) -> bool {
    &&& f.label@ == field_label(tf)
    &&& f.value@ == value
    &&& f.required == tf.required
    &&& f.multiline == (tf.kind == FieldKind::Textarea || tf.kind == FieldKind::SequenceGram
        || tf.kind == FieldKind::CodeBlocks || tf.kind == FieldKind::Gherkin || tf.kind
        == FieldKind::OpenApi)
    &&& f.caret == byte_len(value)
    &&& f.field_id matches Some(id) && id@ == tf.id@
    &&& f.kind == Some(tf.kind)
    &&& strings_view(f.options@) == option_ids(tf.options@)
}

/// A row with the caret at the end of its value sits on a boundary.
proof fn lemma_end_caret_ok(f: FormField)
    requires
        f.caret == byte_len(f.value@),
    ensures
        f.caret_ok(),
{
    assert(f.value@.take(f.value@.len() as int) =~= f.value@);
    crate::utf8::lemma_boundary_idx(f.value@, f.value@.len() as int);
}

/// The row for a template field, showing its default.
pub fn form_field_for_template_field(tf: &Field) -> (r: FormField)
    ensures
        template_row(r, *tf, default_text(tf.default)),
        r.caret_ok(),
{
    let label = crate::ui::format_field_label(tf.label.as_str(), tf.kind);
    let value = match &tf.default {
        None => String::new(),
        Some(fv) => match &fv.text {
            Some(t) => copy_string(t),
            None => {
                let j = chars_of(fv.json.as_str());
                let null = chars_of("null");
                proof {
                    reveal_strlit("null");
                }
                if eq(&j, &null) {
                    String::new()
                } else {
                    copy_string(&fv.json)
                }
            },
        },
    };
    let mut options: Vec<String> = Vec::new();
    let mut i: usize = 0;
    while i < tf.options.len()
        invariant
            i <= tf.options.len(),
            strings_view(options@) == option_ids(tf.options@).take(i as int),
        decreases tf.options.len() - i,
    {
        let id = tf.options[i].id();
        let ghost before = strings_view(options@);
        options.push(id.to_string());
        i = i + 1;
        proof {
            assert(strings_view(options@) =~= before.push(id@));
            assert(option_ids(tf.options@).take(i as int) =~= option_ids(tf.options@).take(
                i - 1,
            ).push(id@));
        }
    }
    proof {
        assert(option_ids(tf.options@).take(tf.options.len() as int) =~= option_ids(tf.options@));
    }
    let caret = str_byte_len(value.as_str());
    let r = FormField {
        label,
        value,
        required: tf.required,
        multiline: tf.kind.is_multiline(),
        caret,
        field_id: Some(copy_string(&tf.id)),
        kind: Some(tf.kind),
        options,
    };
    proof {
        lemma_end_caret_ok(r);
    }
    r
}

// ---------------------------------------------------------------------
// What `update` does.

/// The tab order of the screens.
pub open spec fn tab_at(i: int) -> Screen {
    if i == 0 {
        Screen::Templates
    } else if i == 1 {
        Screen::Tasks
    } else {
        Screen::Info
    }
}

/// A screen's place in the tab order; Help counts as the first.
pub open spec fn tab_index(s: Screen) -> int {
    match s {
        Screen::Templates => 0,
        Screen::Tasks => 1,
        Screen::Info => 2,
        Screen::Help => 0,
    }
}

/// The first index of the template with `id`, or -1.
pub open spec fn find_template(ts: Seq<Template>, id: TemplateId) -> int
    decreases ts.len(),
{
    if ts.len() == 0 {
        -1
    } else if find_template(ts.drop_last(), id) >= 0 {
        find_template(ts.drop_last(), id)
    } else if ts.last().id == id {
        ts.len() - 1
    } else {
        -1
    }
}

/// The first index of the task with `id`, or -1.
pub open spec fn find_task(ts: Seq<Task>, id: TaskId) -> int
    decreases ts.len(),
{
    if ts.len() == 0 {
        -1
    } else if find_task(ts.drop_last(), id) >= 0 {
        find_task(ts.drop_last(), id)
    } else if ts.last().id == id {
        ts.len() - 1
    } else {
        -1
    }
}

/// The first index of the entry with key `k`, or -1.
pub open spec fn find_key(kvs: Seq<(String, FieldValue)>, k: Seq<char>) -> int
    decreases kvs.len(),
{
    if kvs.len() == 0 {
        -1
    } else if find_key(kvs.drop_last(), k) >= 0 {
        find_key(kvs.drop_last(), k)
    } else if kvs.last().0@ == k {
        kvs.len() - 1
    } else {
        -1
    }
}

/// The first index of `id` in the list, or -1.
pub open spec fn find_id(ids: Seq<TaskId>, id: TaskId) -> int
    decreases ids.len(),
{
    if ids.len() == 0 {
        -1
    } else if find_id(ids.drop_last(), id) >= 0 {
        find_id(ids.drop_last(), id)
    } else if ids.last() == id {
        ids.len() - 1
    } else {
        -1
    }
}

/// The text a form shows for a filled-in value: the string itself, or
/// the JSON text.
pub open spec fn shown(v: FieldValue) -> Seq<char> {
    match v.text {
        Some(t) => t@,
        None => v.json@,
    }
}

/// The largest valid position in a list of `n` items (0 when empty).
pub open spec fn last_pos(n: int) -> int {
    if n <= 0 {
        0
    } else {
        n - 1
    }
}

/// `c` moved by `d` within a list of `n` items.
pub open spec fn moved_in(c: int, d: int, n: int) -> int {
    if n == 0 {
        0
    } else {
        clamp_delta(c, d, n - 1)
    }
}

/// `b` is `a` with `t` added as the newest toast of `level`.
pub open spec fn toast_added(a: Model, b: Model, level: ToastLevel, t: Seq<char>) -> bool {
    &&& b == (Model { toasts: b.toasts, ..a })
    &&& b.toasts@.len() == a.toasts@.len() + 1
    &&& b.toasts@.take(a.toasts@.len() as int) == a.toasts@
    &&& b.toasts@.last().level == level
    &&& b.toasts@.last().text@ == t
}

/// `b` is `a` with the palette closed and emptied.
pub open spec fn palette_closed(a: Model, b: Model) -> bool {
    &&& b == (Model {
        palette_open: false,
        palette_input: b.palette_input,
        palette_cursor: 0,
        ..a
    })
    &&& b.palette_input@.len() == 0
}

/// `b` is `a` with a form open and nothing else changed but the picker,
/// which `picker_cleared` says is closed.
pub open spec fn form_opened(a: Model, b: Model, picker_cleared: bool) -> bool {
    &&& b == (Model {
        form: b.form,
        picker: if picker_cleared {
            None
        } else {
            a.picker
        },
        ..a
    })
    &&& b.form is Some
    &&& b.form->0.cursor == 0
}

/// The form for a new template.
pub open spec fn new_template_form(f: FormState) -> bool {
    &&& f.title@ == "New template"@
    &&& f.fields@.len() == 3
    &&& plain_row(f.fields@[0], "Name"@, Seq::empty(), true, false)
    &&& plain_row(
        f.fields@[1],
        "Fields (TOML — one [[fields]] block per field)"@,
        crate::ui::fields_hint(),
        false,
        true,
    )
    &&& plain_row(f.fields@[2], "Prompt Jinja"@, Seq::empty(), true, true)
    &&& f.submit == FormSubmit::CreateTemplate
}

/// The `[[fields]]` text a template's edit form starts with: a hint when
/// it has no fields.
pub open spec fn fields_text(t: Template) -> Seq<char> {
    if t.fields@.len() == 0 {
        crate::ui::fields_hint()
    } else {
        t.fields_toml@
    }
}

/// The form that edits template `t`.
pub open spec fn edit_template_form(f: FormState, t: Template) -> bool {
    &&& f.title@ == "Edit template: "@ + t.name@
    &&& f.fields@.len() == 3
    &&& plain_row(f.fields@[0], "Name"@, t.name@, true, false)
    &&& plain_row(
        f.fields@[1],
        "Fields (TOML — one [[fields]] block per field)"@,
        fields_text(t),
        false,
        true,
    )
    &&& plain_row(
        f.fields@[2],
        "Prompt Jinja"@,
        match t.prompt.template {
            Some(p) => p@,
            None => Seq::empty(),
        },
        true,
        true,
    )
    &&& f.submit == FormSubmit::EditTemplate(t.id)
}

/// The form that creates a task of the template with id `tid` among
/// `ts`.
pub open spec fn create_task_form(f: FormState, ts: Seq<Template>, tid: TemplateId) -> bool {
    let k = find_template(ts, tid);
    &&& f.title@ == if k >= 0 {
        "New task · "@ + ts[k].name@
    } else {
        "New task"@
    }
    &&& plain_row(f.fields@[0], "Name"@, Seq::empty(), true, false)
    &&& f.fields@.len() == 1 + if k >= 0 {
        ts[k].fields@.len() as int
    } else {
        0
    }
    &&& forall|i: int|
        #![trigger f.fields@[i + 1]]
        0 <= i < f.fields@.len() - 1 ==> template_row(
            f.fields@[i + 1],
            ts[k].fields@[i],
            default_text(ts[k].fields@[i].default),
        )
    &&& f.submit == FormSubmit::CreateTask(tid)
}

/// What the row of template field `tf` shows when editing task `t`: its
/// value, or the field's default.
pub open spec fn edit_value(t: Task, tf: Field) -> Seq<char> {
    let k = find_key(t.fields@, tf.id@);
    if k >= 0 {
        shown(t.fields@[k].1)
    } else {
        default_text(tf.default)
    }
}

/// The form that edits task `t`, whose template is at `k` in `ts` (-1
/// when it is gone: then each stored value is a multi-line row of its
/// own, shown as JSON).
pub open spec fn edit_task_form(f: FormState, t: Task, ts: Seq<Template>) -> bool {
    let k = find_template(ts, t.template_id);
    &&& f.title@ == "Edit task · "@ + t.name@
    &&& plain_row(f.fields@[0], "Name"@, t.name@, true, false)
    &&& f.submit == FormSubmit::EditTask(t.id)
    &&& if k >= 0 {
        &&& f.fields@.len() == 1 + ts[k].fields@.len()
        &&& forall|i: int|
            #![trigger f.fields@[i + 1]]
            0 <= i < f.fields@.len() - 1 ==> template_row(
                f.fields@[i + 1],
                ts[k].fields@[i],
                edit_value(t, ts[k].fields@[i]),
            )
    } else {
        &&& f.fields@.len() == 1 + t.fields@.len()
        &&& forall|i: int|
            #![trigger f.fields@[i + 1]]
            0 <= i < f.fields@.len() - 1 ==> {
                let row = f.fields@[i + 1];
                let kv = t.fields@[i];
                &&& row.label@ == kv.0@ + " [unknown]"@
                &&& row.value@ == kv.1.json@
                &&& !row.required
                &&& row.multiline
                &&& row.caret == byte_len(kv.1.json@)
                &&& row.field_id matches Some(id) && id@ == kv.0@
                &&& row.kind == Some(FieldKind::Textarea)
                &&& row.options@.len() == 0
            }
    }
}

/// The label of a template in the template picker.
pub open spec fn picker_label(t: Template) -> Seq<char> {
    let n = t.fields@.len();
    t.name@ + "  (v"@ + dec(t.version as nat) + ", "@ + dec(n) + " field"@ + (if n == 1 {
        Seq::empty()
    } else {
        "s"@
    }) + ")"@
}

/// The template the picker opens on: the selected one, else the one
/// under the Templates cursor.
pub open spec fn preferred_template(a: Model) -> Option<TemplateId> {
    match a.selected_template {
        Some(id) => Some(id),
        None => if a.template_cursor < a.templates@.len() {
            Some(a.templates@[a.template_cursor as int].id)
        } else {
            None
        },
    }
}

/// The picker of templates for a new task.
pub open spec fn template_picker(p: Picker, a: Model) -> bool {
    let ts = a.templates@;
    &&& p.title@ == "Pick a template"@
    &&& p.items@.len() == ts.len()
    &&& forall|i: int|
        #![trigger p.items@[i]]
        0 <= i < ts.len() ==> p.items@[i].label@ == picker_label(ts[i]) && p.items@[i].accept
            == Msg::OpenCreateTaskWith(ts[i].id)
    &&& p.cursor == match preferred_template(a) {
        Some(id) => if find_template(ts, id) >= 0 {
            find_template(ts, id)
        } else {
            0
        },
        None => 0,
    }
}

/// `b` is `a` with a yes/no question.
pub open spec fn confirm_asked(a: Model, b: Model, title: Seq<char>, message: Seq<char>, accept: Msg) -> bool {
    &&& b == (Model { confirm: b.confirm, ..a })
    &&& b.confirm matches Some(p) && p.title@ == title && p.message@ == message && *p.accept
        == accept
}

/// What `update` does with the messages that touch neither a form nor
/// an editor.
pub open spec fn app_step(a: Model, msg: Msg, b: Model, cmd: Option<Cmd>) -> bool {
    match msg {
        Msg::Quit => b == (Model { quitting: true, ..a }) && cmd is None,
        Msg::GoScreen(s) => b == (Model { prev_screen: a.screen, screen: s, ..a }) && cmd is None,
        Msg::NextTab => b == (Model {
            prev_screen: a.screen,
            screen: tab_at((tab_index(a.screen) + 1) % 3),
            ..a
        }) && cmd is None,
        Msg::PrevTab => b == (Model {
            prev_screen: a.screen,
            screen: tab_at((tab_index(a.screen) + 2) % 3),
            ..a
        }) && cmd is None,
        Msg::ShowHelp => b == (Model { prev_screen: a.screen, screen: Screen::Help, ..a })
            && cmd is None,
        Msg::PalToggle => cmd is None && if a.palette_open {
            palette_closed(a, b)
        } else {
            b == (Model { palette_open: true, ..a })
        },
        Msg::PalInput(c) => cmd is None && if a.palette_open {
            b == (Model { palette_input: b.palette_input, ..a }) && b.palette_input@
                == a.palette_input@.push(c)
        } else {
            b == a
        },
        Msg::PalBackspace => cmd is None && if a.palette_open {
            b == (Model { palette_input: b.palette_input, ..a }) && b.palette_input@ == if a.palette_input@.len() > 0 {
                a.palette_input@.drop_last()
            } else {
                a.palette_input@
            }
        } else {
            b == a
        },
        Msg::PalMove(d) => cmd is None && if a.palette_open {
            b == (Model {
                palette_cursor: clamp_delta(a.palette_cursor as int, d as int, usize::MAX as int) as usize,
                ..a
            })
        } else {
            b == a
        },
        Msg::PalAccept => palette_closed(a, b) && cmd == match crate::palette::resolved(
            a.palette_input@,
            a.palette_cursor as int,
        ) {
            Some(m) => Some(Cmd::Dispatch(m)),
            None => None,
        },
        Msg::DismissToast => cmd is None && if a.toasts@.len() > 0 {
            b == (Model { toasts: b.toasts, ..a }) && b.toasts@ == a.toasts@.drop_last()
        } else {
            b == a
        },
        Msg::AckConfirm => match a.confirm {
            Some(p) => b == (Model { confirm: None, ..a }) && cmd == Some(Cmd::Dispatch(*p.accept)),
            None => b == a && cmd is None,
        },
        Msg::CancelConfirm => b == (Model { confirm: None, ..a }) && cmd is None,
        Msg::SetTemplates(v) => cmd is None && b == (Model {
            templates: v,
            template_cursor: if a.template_cursor < v@.len() {
                a.template_cursor
            } else {
                last_pos(v@.len() as int) as usize
            },
            ..a
        }),
        Msg::SetTasks(v) => cmd is None && b == (Model {
            tasks: v,
            task_cursor: if a.task_cursor <= last_pos(v@.len() as int) {
                a.task_cursor
            } else {
                last_pos(v@.len() as int) as usize
            },
            ..a
        }),
        Msg::ToastInfo(t) => cmd is None && toast_added(a, b, ToastLevel::Info, t@),
        Msg::ToastWarn(t) => cmd is None && toast_added(a, b, ToastLevel::Warn, t@),
        Msg::ToastError(t) => cmd is None && toast_added(a, b, ToastLevel::Error, t@),
        Msg::TemplateCursor(d) => {
            let n = a.templates@.len() as int;
            let c = moved_in(a.template_cursor as int, d as int, n);
            cmd is None && b == (Model {
                template_cursor: c as usize,
                selected_template: if c < n {
                    Some(a.templates@[c].id)
                } else {
                    a.selected_template
                },
                ..a
            })
        },
        Msg::OpenCreateTemplate => cmd is None && form_opened(a, b, false) && new_template_form(
            b.form->0,
        ),
        Msg::OpenEditTemplate(id) => cmd is None && {
            let k = find_template(a.templates@, id);
            if k >= 0 {
                form_opened(a, b, false) && edit_template_form(b.form->0, a.templates@[k])
            } else {
                b == a
            }
        },
        Msg::DeleteTemplate(id) => cmd is None && {
            let k = find_template(a.templates@, id);
            let name = if k >= 0 {
                a.templates@[k].name@
            } else {
                "<unknown>"@
            };
            confirm_asked(
                a,
                b,
                "Delete template?"@,
                "Delete template `"@ + name + "`?"@,
                Msg::ConfirmDeleteTemplate(id),
            )
        },
        Msg::TaskCursor(d) => cmd is None && b == (Model {
            task_cursor: moved_in(a.task_cursor as int, d as int, a.tasks@.len() as int) as usize,
            task_prompt_scroll: 0,
            ..a
        }),
        Msg::TaskPromptScroll(d) => cmd is None && b == (Model {
            task_prompt_scroll: clamp_delta(
                a.task_prompt_scroll as int,
                d as int,
                usize::MAX as int,
            ) as usize,
            ..a
        }),
        Msg::ToggleTaskSelection(id) => cmd is None && b == (Model {
            task_multi_select: b.task_multi_select,
            ..a
        }) && {
            let k = find_id(a.task_multi_select@, id);
            b.task_multi_select@ == if k >= 0 {
                a.task_multi_select@.remove(k)
            } else {
                a.task_multi_select@.push(id)
            }
        },
        Msg::OpenCreateTask => cmd is None && if a.templates@.len() == 0 {
            toast_added(a, b, ToastLevel::Warn, "create a template first"@)
        } else if a.templates@.len() == 1 {
            form_opened(a, b, true) && create_task_form(
                b.form->0,
                a.templates@,
                a.templates@[0].id,
            )
        } else {
            b == (Model { picker: b.picker, ..a }) && b.picker is Some && template_picker(
                b.picker->0,
                a,
            )
        },
        Msg::OpenCreateTaskWith(tid) => cmd is None && form_opened(a, b, true) && create_task_form(
            b.form->0,
            a.templates@,
            tid,
        ),
        Msg::OpenEditTask(id) => cmd is None && {
            let k = find_task(a.tasks@, id);
            if k >= 0 {
                form_opened(a, b, true) && edit_task_form(b.form->0, a.tasks@[k], a.templates@)
            } else {
                b == (Model { picker: None, ..a })
            }
        },
        Msg::OpenSaveTaskPrompt(id) => cmd is None && {
            let k = find_task(a.tasks@, id);
            if k >= 0 {
                let t = a.tasks@[k];
                let f = b.form->0;
                &&& form_opened(a, b, false)
                &&& f.title@ == "Save prompt · "@ + t.name@
                &&& f.fields@.len() == 1
                &&& plain_row(f.fields@[0], "File name"@, t.name@, true, false)
                &&& f.submit == FormSubmit::SaveTaskPromptToFile(id)
            } else {
                toast_added(a, b, ToastLevel::Warn, "task not found"@)
            }
        },
        Msg::PickerMove(d) => cmd is None && match a.picker {
            Some(p) => if p.items@.len() > 0 {
                b == (Model {
                    picker: Some(
                        Picker {
                            cursor: wrap_index(p.items@.len() as int, p.cursor as int, d as int) as usize,
                            ..p
                        },
                    ),
                    ..a
                })
            } else {
                b == a
            },
            None => b == a,
        },
        Msg::PickerAccept => match a.picker {
            Some(p) => b == (Model { picker: None, ..a }) && cmd == if p.cursor < p.items@.len() {
                Some(Cmd::Dispatch(p.items@[p.cursor as int].accept))
            } else {
                None
            },
            None => b == a && cmd is None,
        },
        Msg::PickerCancel => b == (Model { picker: None, ..a }) && cmd is None,
        Msg::DeleteTask(id) => cmd is None && confirm_asked(
            a,
            b,
            "Delete task?"@,
            "Delete this"@ + " task and its files?"@,
            Msg::ConfirmDeleteTask(id),
        ),
        Msg::ConfirmDeleteTemplate(id) => b == a && cmd == Some(Cmd::DeleteTemplate(id)),
        Msg::ConfirmDeleteTask(id) => b == a && cmd == Some(Cmd::DeleteTask(id)),
        _ => false,
    }
}

/// The messages `app_step` covers.
pub open spec fn is_app_msg(msg: Msg) -> bool {
    match msg {
        Msg::Quit | Msg::GoScreen(_) | Msg::NextTab | Msg::PrevTab | Msg::ShowHelp
        | Msg::PalToggle | Msg::PalInput(_) | Msg::PalBackspace | Msg::PalAccept | Msg::PalMove(_)
        | Msg::DismissToast | Msg::AckConfirm | Msg::CancelConfirm | Msg::SetTemplates(_)
        | Msg::SetTasks(_) | Msg::ToastInfo(_) | Msg::ToastWarn(_) | Msg::ToastError(_)
        | Msg::TemplateCursor(_) | Msg::OpenCreateTemplate | Msg::OpenEditTemplate(_)
        | Msg::DeleteTemplate(_) | Msg::TaskCursor(_) | Msg::TaskPromptScroll(_)
        | Msg::ToggleTaskSelection(_) | Msg::OpenCreateTask | Msg::OpenCreateTaskWith(_)
        | Msg::OpenEditTask(_) | Msg::OpenSaveTaskPrompt(_) | Msg::PickerMove(_)
        | Msg::PickerAccept | Msg::PickerCancel | Msg::DeleteTask(_)
        | Msg::ConfirmDeleteTemplate(_) | Msg::ConfirmDeleteTask(_) => true,
        _ => false,
    }
}

// ---------------------------------------------------------------------
// The application-level messages.

fn find_template_exec(ts: &Vec<Template>, id: TemplateId) -> (r: Option<usize>)
    ensures
        match r {
            Some(k) => k == find_template(ts@, id) && k < ts@.len() && ts@[k as int].id == id,
            None => find_template(ts@, id) == -1,
        },
{
    let mut i: usize = 0;
    while i < ts.len()
        invariant
            i <= ts.len(),
            find_template(ts@.take(i as int), id) == -1,
        decreases ts.len() - i,
    {
        proof {
            assert(ts@.take(i + 1).drop_last() =~= ts@.take(i as int));
        }
        if ts[i].id.0 == id.0 {
            proof {
                lemma_find_template_prefix(ts@, id, i as int + 1);
            }
            return Some(i);
        }
        i = i + 1;
    }
    proof {
        assert(ts@.take(ts.len() as int) =~= ts@);
    }
    None
}

/// The first match in a prefix is the first match overall.
proof fn lemma_find_template_prefix(ts: Seq<Template>, id: TemplateId, n: int)
    requires
        0 <= n <= ts.len(),
        find_template(ts.take(n), id) >= 0,
    ensures
        find_template(ts, id) == find_template(ts.take(n), id),
    decreases ts.len() - n,
{
    if n < ts.len() {
        assert(ts.take(n + 1).drop_last() =~= ts.take(n));
        lemma_find_template_prefix(ts, id, n + 1);
    } else {
        assert(ts.take(n) =~= ts);
    }
}

fn find_task_exec(ts: &Vec<Task>, id: TaskId) -> (r: Option<usize>)
    ensures
        match r {
            Some(k) => k == find_task(ts@, id) && k < ts@.len() && ts@[k as int].id == id,
            None => find_task(ts@, id) == -1,
        },
{
    let mut i: usize = 0;
    while i < ts.len()
        invariant
            i <= ts.len(),
            find_task(ts@.take(i as int), id) == -1,
        decreases ts.len() - i,
    {
        proof {
            assert(ts@.take(i + 1).drop_last() =~= ts@.take(i as int));
        }
        if ts[i].id.0 == id.0 {
            proof {
                lemma_find_task_prefix(ts@, id, i as int + 1);
            }
            return Some(i);
        }
        i = i + 1;
    }
    proof {
        assert(ts@.take(ts.len() as int) =~= ts@);
    }
    None
}

proof fn lemma_find_task_prefix(ts: Seq<Task>, id: TaskId, n: int)
    requires
        0 <= n <= ts.len(),
        find_task(ts.take(n), id) >= 0,
    ensures
        find_task(ts, id) == find_task(ts.take(n), id),
    decreases ts.len() - n,
{
    if n < ts.len() {
        assert(ts.take(n + 1).drop_last() =~= ts.take(n));
        lemma_find_task_prefix(ts, id, n + 1);
    } else {
        assert(ts.take(n) =~= ts);
    }
}

fn find_key_exec(kvs: &Vec<(String, FieldValue)>, k: &Vec<char>) -> (r: Option<usize>)
    ensures
        match r {
            Some(i) => i == find_key(kvs@, k@) && i < kvs@.len(),
            None => find_key(kvs@, k@) == -1,
        },
{
    let mut i: usize = 0;
    while i < kvs.len()
        invariant
            i <= kvs.len(),
            find_key(kvs@.take(i as int), k@) == -1,
        decreases kvs.len() - i,
    {
        proof {
            assert(kvs@.take(i + 1).drop_last() =~= kvs@.take(i as int));
        }
        if eq(&chars_of(kvs[i].0.as_str()), k) {
            proof {
                lemma_find_key_prefix(kvs@, k@, i as int + 1);
            }
            return Some(i);
        }
        i = i + 1;
    }
    proof {
        assert(kvs@.take(kvs.len() as int) =~= kvs@);
    }
    None
}

proof fn lemma_find_key_prefix(kvs: Seq<(String, FieldValue)>, k: Seq<char>, n: int)
    requires
        0 <= n <= kvs.len(),
        find_key(kvs.take(n), k) >= 0,
    ensures
        find_key(kvs, k) == find_key(kvs.take(n), k),
    decreases kvs.len() - n,
{
    if n < kvs.len() {
        assert(kvs.take(n + 1).drop_last() =~= kvs.take(n));
        lemma_find_key_prefix(kvs, k, n + 1);
    } else {
        assert(kvs.take(n) =~= kvs);
    }
}

fn find_id_exec(ids: &Vec<TaskId>, id: TaskId) -> (r: Option<usize>)
    ensures
        match r {
            Some(i) => i == find_id(ids@, id) && i < ids@.len(),
            None => find_id(ids@, id) == -1,
        },
{
    let mut i: usize = 0;
    while i < ids.len()
        invariant
            i <= ids.len(),
            find_id(ids@.take(i as int), id) == -1,
        decreases ids.len() - i,
    {
        proof {
            assert(ids@.take(i + 1).drop_last() =~= ids@.take(i as int));
        }
        if ids[i].0 == id.0 {
            proof {
                lemma_find_id_prefix(ids@, id, i as int + 1);
            }
            return Some(i);
        }
        i = i + 1;
    }
    proof {
        assert(ids@.take(ids.len() as int) =~= ids@);
    }
    None
}

proof fn lemma_find_id_prefix(ids: Seq<TaskId>, id: TaskId, n: int)
    requires
        0 <= n <= ids.len(),
        find_id(ids.take(n), id) >= 0,
    ensures
        find_id(ids, id) == find_id(ids.take(n), id),
    decreases ids.len() - n,
{
    if n < ids.len() {
        assert(ids.take(n + 1).drop_last() =~= ids.take(n));
        lemma_find_id_prefix(ids, id, n + 1);
    } else {
        assert(ids.take(n) =~= ids);
    }
}

fn plain(label: &str, value: &str, required: bool, multiline: bool) -> (r: FormField)
    ensures
        plain_row(r, label@, value@, required, multiline),
        r.caret_ok(),
{
    FormField::plain(label, value, required, multiline)
}

fn push_toast(model: &mut Model, level: ToastLevel, text: &str)
    ensures
        toast_added(*old(model), *final(model), level, text@),
{
    let ghost old_toasts = model.toasts@;
    model.toasts.push(Toast::new(level, text));
    proof {
        assert(model.toasts@.take(old_toasts.len() as int) =~= old_toasts);
    }
}

/// Shows `text` as the newest toast of `level`; nothing else changes.
pub fn notify(model: &mut Model, level: ToastLevel, text: &str)
    ensures
        toast_added(*old(model), *final(model), level, text@),
{
    push_toast(model, level, text);
}

/// The form a failed submission goes back to: as it was sent, with its
/// cursor on row `cursor` when that row exists.
pub open spec fn restored(backup: FormState, cursor: Option<usize>) -> FormState {
    match cursor {
        Some(c) => if c < backup.fields.len() {
            FormState { cursor: c, ..backup }
        } else {
            backup
        },
        None => backup,
    }
}

/// Puts a form whose submission failed back in place, with the cursor
/// on the row at fault when there is one, and shows why.
pub fn restore_form(
    model: &mut Model,
    backup: FormState,
    cursor: Option<usize>,
    level: ToastLevel,
    text: &str,
)
    ensures
        toast_added(
            Model { form: Some(restored(backup, cursor)), ..*old(model) },
            *final(model),
            level,
            text@,
        ),
{
    let mut f = backup;
    match cursor {
        Some(c) => {
            if c < f.fields.len() {
                f.cursor = c;
            }
        },
        None => {},
    }
    model.form = Some(f);
    push_toast(model, level, text);
}

/// Opens the form that creates a task of template `tid`, closing the
/// picker.
pub fn open_create_task_form(model: &mut Model, tid: TemplateId)
    ensures
        form_opened(*old(model), *final(model), true),
        create_task_form(final(model).form->0, old(model).templates@, tid),
        form_ok(final(model).form->0),
{
    model.picker = None;
    let k = find_template_exec(&model.templates, tid);
    proof {
        reveal_strlit("New task · ");
        reveal_strlit("New task");
        reveal_strlit("Name");
    }
    let title = match k {
        Some(i) => {
            let mut v = chars_of("New task · ");
            append(&mut v, &chars_of(model.templates[i].name.as_str()));
            string_of(&v)
        },
        None => "New task".to_string(),
    };
    let mut fields: Vec<FormField> = Vec::new();
    let empty = String::new();
    fields.push(plain("Name", empty.as_str(), true, false));
    match k {
        Some(ti) => {
            let mut j: usize = 0;
            while j < model.templates[ti].fields.len()
                invariant
                    ti < model.templates@.len(),
                    j <= model.templates@[ti as int].fields@.len(),
                    fields@.len() == 1 + j,
                    plain_row(fields@[0], "Name"@, Seq::empty(), true, false),
                    fields@[0].caret_ok(),
                    forall|i: int|
                        #![trigger fields@[i + 1]]
                        0 <= i < j ==> template_row(
                            fields@[i + 1],
                            model.templates@[ti as int].fields@[i],
                            default_text(model.templates@[ti as int].fields@[i].default),
                        ) && fields@[i + 1].caret_ok(),
                decreases model.templates@[ti as int].fields@.len() - j,
            {
                let row = form_field_for_template_field(&model.templates[ti].fields[j]);
                fields.push(row);
                proof {
                    assert(fields@[j + 1] == row);
                }
                j = j + 1;
            }
        },
        None => {},
    }
    let f = FormState { title, fields, cursor: 0, submit: FormSubmit::CreateTask(tid) };
    proof {
        assert forall|i: int| 0 <= i < f.fields.len() implies (#[trigger] f.fields@[i]).caret_ok() by {
            if i > 0 {
                assert(f.fields@[(i - 1) + 1].caret_ok());
            }
        }
    }
    model.form = Some(f);
}

fn concat2(a: &str, b: &str) -> (r: String)
    ensures
        r@ == a@ + b@,
{
    let mut v = chars_of(a);
    append(&mut v, &chars_of(b));
    string_of(&v)
}

fn concat3(a: &str, b: &str, c: &str) -> (r: String)
    ensures
        r@ == a@ + b@ + c@,
{
    let mut v = chars_of(a);
    append(&mut v, &chars_of(b));
    append(&mut v, &chars_of(c));
    string_of(&v)
}

fn app_open_create_template(model: &mut Model) -> (r: Option<Cmd>)
    requires
        old(model).wf(),
    ensures
        app_step(*old(model), Msg::OpenCreateTemplate, *final(model), r),
        final(model).wf(),
{
    proof {
        reveal_strlit("New template");
        reveal_strlit("Name");
        reveal_strlit("Fields (TOML — one [[fields]] block per field)");
        reveal_strlit("Prompt Jinja");
    }
    let empty = String::new();
    let hint = default_fields_toml_hint();
    let fields = vec![
        plain("Name", empty.as_str(), true, false),
        plain("Fields (TOML — one [[fields]] block per field)", hint.as_str(), false, true),
        plain("Prompt Jinja", empty.as_str(), true, true),
    ];
    let f = FormState {
        title: "New template".to_string(),
        fields,
        cursor: 0,
        submit: FormSubmit::CreateTemplate,
    };
    model.form = Some(f);
    None
}

fn app_open_edit_template(model: &mut Model, id: TemplateId) -> (r: Option<Cmd>)
    requires
        old(model).wf(),
    ensures
        app_step(*old(model), Msg::OpenEditTemplate(id), *final(model), r),
        final(model).wf(),
{
    let k = match find_template_exec(&model.templates, id) {
        Some(k) => k,
        None => {
            return None;
        },
    };
    proof {
        reveal_strlit("Edit template: ");
        reveal_strlit("Name");
        reveal_strlit("Fields (TOML — one [[fields]] block per field)");
        reveal_strlit("Prompt Jinja");
    }
    let t = &model.templates[k];
    let title = concat2("Edit template: ", t.name.as_str());
    let toml = if t.fields.len() == 0 {
        default_fields_toml_hint()
    } else {
        copy_string(&t.fields_toml)
    };
    let prompt = match &t.prompt.template {
        Some(p) => copy_string(p),
        None => String::new(),
    };
    let fields = vec![
        plain("Name", t.name.as_str(), true, false),
        plain("Fields (TOML — one [[fields]] block per field)", toml.as_str(), false, true),
        plain("Prompt Jinja", prompt.as_str(), true, true),
    ];
    let f = FormState { title, fields, cursor: 0, submit: FormSubmit::EditTemplate(id) };
    proof {
        assert(title@ =~= "Edit template: "@ + t.name@);
    }
    model.form = Some(f);
    None
}

fn app_delete_template(model: &mut Model, id: TemplateId) -> (r: Option<Cmd>)
    ensures
        app_step(*old(model), Msg::DeleteTemplate(id), *final(model), r),
{
    proof {
        reveal_strlit("Delete template?");
        reveal_strlit("Delete template `");
        reveal_strlit("`?");
        reveal_strlit("<unknown>");
    }
    let name = match find_template_exec(&model.templates, id) {
        Some(k) => copy_string(&model.templates[k].name),
        None => "<unknown>".to_string(),
    };
    let message = concat3("Delete template `", name.as_str(), "`?");
    model.confirm = Some(
        ConfirmPrompt {
            title: "Delete template?".to_string(),
            message,
            accept: Box::new(Msg::ConfirmDeleteTemplate(id)),
        },
    );
    None
}

fn app_delete_task(model: &mut Model, id: TaskId) -> (r: Option<Cmd>)
    ensures
        app_step(*old(model), Msg::DeleteTask(id), *final(model), r),
{
    proof {
        reveal_strlit("Delete task?");
        reveal_strlit("Delete this");
        reveal_strlit(" task and its files?");
    }
    model.confirm = Some(
        ConfirmPrompt {
            title: "Delete task?".to_string(),
            message: concat2("Delete this", " task and its files?"),
            accept: Box::new(Msg::ConfirmDeleteTask(id)),
        },
    );
    None
}

fn app_toggle_selection(model: &mut Model, id: TaskId) -> (r: Option<Cmd>)
    ensures
        app_step(*old(model), Msg::ToggleTaskSelection(id), *final(model), r),
{
    match find_id_exec(&model.task_multi_select, id) {
        Some(k) => {
            model.task_multi_select.remove(k);
        },
        None => {
            model.task_multi_select.push(id);
        },
    }
    None
}

fn template_picker_label(t: &Template) -> (r: String)
    ensures
        r@ == picker_label(*t),
{
    proof {
        reveal_strlit("  (v");
        reveal_strlit(", ");
        reveal_strlit(" field");
        reveal_strlit("s");
        reveal_strlit(")");
    }
    let n = t.fields.len();
    let mut v = chars_of(t.name.as_str());
    append(&mut v, &chars_of("  (v"));
    append(&mut v, &fmt_u128(t.version as u128));
    append(&mut v, &chars_of(", "));
    append(&mut v, &fmt_u128(n as u128));
    append(&mut v, &chars_of(" field"));
    if n != 1 {
        append(&mut v, &chars_of("s"));
    }
    append(&mut v, &chars_of(")"));
    proof {
        assert(v@ =~= picker_label(*t));
    }
    string_of(&v)
}

fn app_open_create_task(model: &mut Model) -> (r: Option<Cmd>)
    requires
        old(model).wf(),
    ensures
        app_step(*old(model), Msg::OpenCreateTask, *final(model), r),
        final(model).wf(),
{
    let n = model.templates.len();
    if n == 0 {
        proof {
            reveal_strlit("create a template first");
        }
        push_toast(model, ToastLevel::Warn, "create a template first");
        return None;
    }
    if n == 1 {
        let tid = model.templates[0].id;
        open_create_task_form(model, tid);
        return None;
    }
    let preferred = match model.selected_template {
        Some(id) => Some(id),
        None => if model.template_cursor < n {
            Some(model.templates[model.template_cursor].id)
        } else {
            None
        },
    };
    let mut items: Vec<PickerItem> = Vec::new();
    let mut i: usize = 0;
    while i < n
        invariant
            n == model.templates@.len(),
            i <= n,
            items@.len() == i,
            forall|j: int|
                #![trigger items@[j]]
                0 <= j < i ==> items@[j].label@ == picker_label(model.templates@[j])
                    && items@[j].accept == Msg::OpenCreateTaskWith(model.templates@[j].id),
        decreases n - i,
    {
        let t = &model.templates[i];
        items.push(PickerItem { label: template_picker_label(t), accept: Msg::OpenCreateTaskWith(t.id) });
        i = i + 1;
    }
    let cursor = match preferred {
        Some(id) => match find_template_exec(&model.templates, id) {
            Some(k) => k,
            None => 0,
        },
        None => 0,
    };
    proof {
        reveal_strlit("Pick a template");
    }
    model.picker = Some(Picker { title: "Pick a template".to_string(), items, cursor });
    None
}

/// The row that edits template field `tf` of task `t`.
fn task_field_row(t: &Task, tf: &Field) -> (r: FormField)
    ensures
        template_row(r, *tf, edit_value(*t, *tf)),
        r.caret_ok(),
{
    let mut f = form_field_for_template_field(tf);
    match find_key_exec(&t.fields, &chars_of(tf.id.as_str())) {
        Some(k) => {
            let v = &t.fields[k].1;
            f.value = match &v.text {
                Some(s) => copy_string(s),
                None => copy_string(&v.json),
            };
            f.caret = str_byte_len(f.value.as_str());
            proof {
                lemma_end_caret_ok(f);
            }
        },
        None => {},
    }
    f
}

/// The row that shows a stored value whose template is gone.
fn orphan_row(k: &String, v: &FieldValue) -> (r: FormField)
    ensures
        r.label@ == k@ + " [unknown]"@,
        r.value@ == v.json@,
        !r.required,
        r.multiline,
        r.caret == byte_len(v.json@),
        r.field_id matches Some(id) && id@ == k@,
        r.kind == Some(FieldKind::Textarea),
        r.options@.len() == 0,
        r.caret_ok(),
{
    proof {
        reveal_strlit(" [unknown]");
    }
    let label = concat2(k.as_str(), " [unknown]");
    let mut f = plain(label.as_str(), v.json.as_str(), false, true);
    proof {
        assert(label@ =~= k@ + " [unknown]"@);
    }
    f.field_id = Some(copy_string(k));
    f.kind = Some(FieldKind::Textarea);
    f
}

fn app_open_edit_task(model: &mut Model, id: TaskId) -> (r: Option<Cmd>)
    requires
        old(model).wf(),
    ensures
        app_step(*old(model), Msg::OpenEditTask(id), *final(model), r),
        final(model).wf(),
{
    model.picker = None;
    let k = match find_task_exec(&model.tasks, id) {
        Some(k) => k,
        None => {
            return None;
        },
    };
    proof {
        reveal_strlit("Edit task · ");
        reveal_strlit("Name");
    }
    let t = &model.tasks[k];
    let title = concat2("Edit task · ", t.name.as_str());
    proof {
        assert(title@ =~= "Edit task · "@ + t.name@);
    }
    let mut fields: Vec<FormField> = Vec::new();
    fields.push(plain("Name", t.name.as_str(), true, false));
    match find_template_exec(&model.templates, t.template_id) {
        Some(ti) => {
            let tpl = &model.templates[ti];
            let mut j: usize = 0;
            while j < tpl.fields.len()
                invariant
                    j <= tpl.fields@.len(),
                    fields@.len() == 1 + j,
                    plain_row(fields@[0], "Name"@, t.name@, true, false),
                    fields@[0].caret_ok(),
                    forall|i: int|
                        #![trigger fields@[i + 1]]
                        0 <= i < j ==> template_row(
                            fields@[i + 1],
                            tpl.fields@[i],
                            edit_value(*t, tpl.fields@[i]),
                        ) && fields@[i + 1].caret_ok(),
                decreases tpl.fields@.len() - j,
            {
                let row = task_field_row(t, &tpl.fields[j]);
                fields.push(row);
                proof {
                    assert(fields@[j + 1] == row);
                }
                j = j + 1;
            }
        },
        None => {
            let mut j: usize = 0;
            while j < t.fields.len()
                invariant
                    j <= t.fields@.len(),
                    fields@.len() == 1 + j,
                    plain_row(fields@[0], "Name"@, t.name@, true, false),
                    fields@[0].caret_ok(),
                    forall|i: int|
                        #![trigger fields@[i + 1]]
                        0 <= i < j ==> {
                            let row = fields@[i + 1];
                            let kv = t.fields@[i];
                            &&& row.label@ == kv.0@ + " [unknown]"@
                            &&& row.value@ == kv.1.json@
                            &&& !row.required
                            &&& row.multiline
                            &&& row.caret == byte_len(kv.1.json@)
                            &&& row.field_id matches Some(id) && id@ == kv.0@
                            &&& row.kind == Some(FieldKind::Textarea)
                            &&& row.options@.len() == 0
                            &&& row.caret_ok()
                        },
                decreases t.fields@.len() - j,
            {
                let row = orphan_row(&t.fields[j].0, &t.fields[j].1);
                fields.push(row);
                proof {
                    assert(fields@[j + 1] == row);
                }
                j = j + 1;
            }
        },
    }
    let f = FormState { title, fields, cursor: 0, submit: FormSubmit::EditTask(id) };
    proof {
        assert forall|i: int| 0 <= i < f.fields.len() implies (#[trigger] f.fields@[i]).caret_ok() by {
            if i > 0 {
                assert(f.fields@[(i - 1) + 1].caret_ok());
            }
        }
    }
    model.form = Some(f);
    None
}

fn app_open_save_task_prompt(model: &mut Model, id: TaskId) -> (r: Option<Cmd>)
    requires
        old(model).wf(),
    ensures
        app_step(*old(model), Msg::OpenSaveTaskPrompt(id), *final(model), r),
        final(model).wf(),
{
    let k = match find_task_exec(&model.tasks, id) {
        Some(k) => k,
        None => {
            proof {
                reveal_strlit("task not found");
            }
            push_toast(model, ToastLevel::Warn, "task not found");
            return None;
        },
    };
    proof {
        reveal_strlit("Save prompt · ");
        reveal_strlit("File name");
    }
    let t = &model.tasks[k];
    let title = concat2("Save prompt · ", t.name.as_str());
    proof {
        assert(title@ =~= "Save prompt · "@ + t.name@);
    }
    let fields = vec![plain("File name", t.name.as_str(), true, false)];
    model.form = Some(
        FormState { title, fields, cursor: 0, submit: FormSubmit::SaveTaskPromptToFile(id) },
    );
    None
}

/// `update` for the messages that touch neither a form nor an editor.
fn update_app(model: &mut Model, msg: Msg) -> (r: Option<Cmd>)
    requires
        is_app_msg(msg),
        old(model).wf(),
    ensures
        app_step(*old(model), msg, *final(model), r),
        final(model).wf(),
{
    match msg {
        Msg::Quit => {
            model.quitting = true;
            None
        },
        Msg::GoScreen(s) => {
            model.prev_screen = model.screen;
            model.screen = s;
            None
        },
        Msg::NextTab => {
            let idx: usize = match model.screen {
                Screen::Templates => 0,
                Screen::Tasks => 1,
                Screen::Info => 2,
                Screen::Help => 0,
            };
            model.prev_screen = model.screen;
            let j = (idx + 1) % 3;
            model.screen = if j == 0 {
                Screen::Templates
            } else if j == 1 {
                Screen::Tasks
            } else {
                Screen::Info
            };
            None
        },
        Msg::PrevTab => {
            let idx: usize = match model.screen {
                Screen::Templates => 0,
                Screen::Tasks => 1,
                Screen::Info => 2,
                Screen::Help => 0,
            };
            model.prev_screen = model.screen;
            let j = (idx + 2) % 3;
            model.screen = if j == 0 {
                Screen::Templates
            } else if j == 1 {
                Screen::Tasks
            } else {
                Screen::Info
            };
            None
        },
        Msg::ShowHelp => {
            model.prev_screen = model.screen;
            model.screen = Screen::Help;
            None
        },
        Msg::PalToggle => {
            model.palette_open = !model.palette_open;
            if !model.palette_open {
                model.palette_input = String::new();
                model.palette_cursor = 0;
            }
            None
        },
        Msg::PalInput(c) => {
            if model.palette_open {
                push_char(&mut model.palette_input, c);
            }
            None
        },
        Msg::PalBackspace => {
            if model.palette_open {
                pop_char(&mut model.palette_input);
            }
            None
        },
        Msg::PalMove(d) => {
            if model.palette_open {
                model.palette_cursor = apply_delta(model.palette_cursor, d, usize::MAX);
            }
            None
        },
        Msg::PalAccept => {
            let action = resolve(model.palette_input.as_str(), model.palette_cursor);
            model.palette_open = false;
            model.palette_input = String::new();
            model.palette_cursor = 0;
            match action {
                Some(m) => Some(Cmd::Dispatch(m)),
                None => None,
            }
        },
        Msg::DismissToast => {
            if model.toasts.len() > 0 {
                model.toasts.pop();
            }
            None
        },
        Msg::AckConfirm => {
            let c = model.confirm.take();
            match c {
                Some(p) => Some(Cmd::Dispatch(*p.accept)),
                None => None,
            }
        },
        Msg::CancelConfirm => {
            model.confirm = None;
            None
        },
        Msg::SetTemplates(v) => {
            model.templates = v;
            model.ensure_selection_consistency();
            None
        },
        Msg::SetTasks(v) => {
            model.tasks = v;
            let n = model.tasks.len();
            let cap = if n == 0 {
                0
            } else {
                n - 1
            };
            if model.task_cursor > cap {
                model.task_cursor = cap;
            }
            None
        },
        Msg::ToastInfo(t) => {
            push_toast(model, ToastLevel::Info, t.as_str());
            None
        },
        Msg::ToastWarn(t) => {
            push_toast(model, ToastLevel::Warn, t.as_str());
            None
        },
        Msg::ToastError(t) => {
            push_toast(model, ToastLevel::Error, t.as_str());
            None
        },
        Msg::TemplateCursor(d) => {
            move_cursor(&mut model.template_cursor, d, model.templates.len());
            if model.template_cursor < model.templates.len() {
                model.selected_template = Some(model.templates[model.template_cursor].id);
            }
            None
        },
        Msg::OpenCreateTemplate => app_open_create_template(model),
        Msg::OpenEditTemplate(id) => app_open_edit_template(model, id),
        Msg::DeleteTemplate(id) => app_delete_template(model, id),
        Msg::TaskCursor(d) => {
            move_cursor(&mut model.task_cursor, d, model.tasks.len());
            model.task_prompt_scroll = 0;
            None
        },
        Msg::TaskPromptScroll(d) => {
            model.task_prompt_scroll = apply_delta(model.task_prompt_scroll, d, usize::MAX);
            None
        },
        Msg::ToggleTaskSelection(id) => app_toggle_selection(model, id),
        Msg::OpenCreateTask => app_open_create_task(model),
        Msg::OpenCreateTaskWith(tid) => {
            open_create_task_form(model, tid);
            None
        },
        Msg::OpenEditTask(id) => app_open_edit_task(model, id),
        Msg::OpenSaveTaskPrompt(id) => app_open_save_task_prompt(model, id),
        Msg::PickerMove(d) => {
            match &mut model.picker {
                Some(p) => {
                    if p.items.len() > 0 {
                        p.cursor = cycle_wrap(p.items.len(), p.cursor, d);
                    }
                },
                None => {},
            }
            None
        },
        Msg::PickerAccept => {
            let taken = model.picker.take();
            match taken {
                Some(p) => {
                    let mut items = p.items;
                    if p.cursor < items.len() {
                        let item = items.remove(p.cursor);
                        Some(Cmd::Dispatch(item.accept))
                    } else {
                        None
                    }
                },
                None => None,
            }
        },
        Msg::PickerCancel => {
            model.picker = None;
            None
        },
        Msg::DeleteTask(id) => app_delete_task(model, id),
        Msg::ConfirmDeleteTemplate(id) => Some(Cmd::DeleteTemplate(id)),
        Msg::ConfirmDeleteTask(id) => Some(Cmd::DeleteTask(id)),
        _ => None,
    }
}

// ---------------------------------------------------------------------
// Forms and editors.

/// The note shown instead of typing into a row whose kind has an editor
/// of its own.
pub open spec fn read_only_note(k: Option<FieldKind>) -> Option<Seq<char>> {
    match k {
        Some(FieldKind::SequenceGram) => Some("sequence-gram is read-only here; press F3 to edit"@),
        Some(FieldKind::CodeBlocks) => Some("code-blocks is read-only here; press F4 to edit"@),
        Some(FieldKind::Gherkin) => Some("gherkin is read-only here; press F5 to edit"@),
        Some(FieldKind::OpenApi) => Some("openapi is read-only here; press F6 to edit"@),
        _ => None,
    }
}

/// The focused row of the open form, if there is one.
pub open spec fn focused(a: Model) -> Option<FormField> {
    match a.form {
        Some(f) => if f.cursor < f.fields@.len() {
            Some(f.fields@[f.cursor as int])
        } else {
            None
        },
        None => None,
    }
}

/// `g` is `f` with at most the row at `i` changed, as `p` relates it.
pub open spec fn row_at_changed(f: FormState, g: FormState, i: int, p: spec_fn(FormField, FormField) -> bool) -> bool {
    &&& g.title == f.title
    &&& g.cursor == f.cursor
    &&& g.submit == f.submit
    &&& g.fields@.len() == f.fields@.len()
    &&& forall|j: int| 0 <= j < f.fields@.len() && j != i ==> g.fields@[j] == f.fields@[j]
    &&& 0 <= i < f.fields@.len() ==> p(f.fields@[i], g.fields@[i])
}

/// `b` is `a` with the focused row of its form changed as `p` says.
pub open spec fn row_changed(a: Model, b: Model, p: spec_fn(FormField, FormField) -> bool) -> bool {
    &&& b == (Model { form: b.form, ..a })
    &&& match (a.form, b.form) {
        (Some(f), Some(g)) => row_at_changed(f, g, f.cursor as int, p),
        (None, None) => true,
        _ => false,
    }
}

/// `g` is `f` with the row at `i` (if there is one) holding `text`, the
/// caret at its end.
pub open spec fn saved_into(f: FormState, g: FormState, i: int, text: Seq<char>) -> bool {
    row_at_changed(
        f,
        g,
        i,
        |x: FormField, y: FormField| y.value@ == text && y.caret == byte_len(text) && y.same_row(&x),
    )
}

/// `b` is `a` with the editor's text written into the form row it
/// edits, and the editor closed (`editor_closed` says the field is now
/// empty).
pub open spec fn editor_saved(a: Model, b: Model, i: int, text: Seq<char>) -> bool {
    match (a.form, b.form) {
        (Some(f), Some(g)) => saved_into(f, g, i, text),
        (None, None) => true,
        _ => false,
    }
}

/// The focused row's kind is `k`.
pub open spec fn focused_kind_is(a: Model, k: FieldKind) -> bool {
    focused(a) matches Some(r) && r.kind == Some(k)
}

/// What `update` does with the form messages.
pub open spec fn form_step(a: Model, msg: Msg, b: Model, cmd: Option<Cmd>) -> bool {
    match msg {
        Msg::FormInputChar(c) => cmd is None && match focused(a) {
            Some(r) => match read_only_note(r.kind) {
                Some(t) => toast_added(a, b, ToastLevel::Info, t),
                None => row_changed(a, b, |x: FormField, y: FormField| typed(x, c, y)),
            },
            None => b == a,
        },
        Msg::FormBackspace => cmd is None && match focused(a) {
            Some(r) => match read_only_note(r.kind) {
                Some(t) => toast_added(a, b, ToastLevel::Info, t),
                None => row_changed(a, b, |x: FormField, y: FormField| erased(x, y)),
            },
            None => b == a,
        },
        Msg::FormNext => cmd is None && match a.form {
            None => b == a,
            Some(f) => {
                let n = f.fields@.len() as int;
                let c = (f.cursor + 1) % (if n == 0 { 1 } else { n });
                &&& b == (Model { form: b.form, ..a })
                &&& b.form matches Some(g) && g.cursor == c && g.title == f.title && g.submit
                    == f.submit && g.fields@ == if c < n {
                    f.fields@.update(c, FormField { caret: byte_len(f.fields@[c].value@) as usize, ..f.fields@[c] })
                } else {
                    f.fields@
                }
            },
        },
        Msg::FormPrev => cmd is None && match a.form {
            None => b == a,
            Some(f) => {
                let n = if f.fields@.len() == 0 { 1 } else { f.fields@.len() as int };
                let c = (f.cursor + n - 1) % n;
                &&& b == (Model { form: b.form, ..a })
                &&& b.form matches Some(g) && g.cursor == c && g.title == f.title && g.submit
                    == f.submit && g.fields@ == if c < f.fields@.len() {
                    f.fields@.update(c, FormField { caret: byte_len(f.fields@[c].value@) as usize, ..f.fields@[c] })
                } else {
                    f.fields@
                }
            },
        },
        Msg::FormCaretLeft => cmd is None && row_changed(a, b, |x: FormField, y: FormField| moved(x, CaretMove::Left, y)),
        Msg::FormCaretRight => cmd is None && row_changed(a, b, |x: FormField, y: FormField| moved(x, CaretMove::Right, y)),
        Msg::FormCaretUp => cmd is None && row_changed(a, b, |x: FormField, y: FormField| moved(x, CaretMove::Up, y)),
        Msg::FormCaretDown => cmd is None && row_changed(a, b, |x: FormField, y: FormField| moved(x, CaretMove::Down, y)),
        Msg::FormCaretHome => cmd is None && row_changed(a, b, |x: FormField, y: FormField| moved(x, CaretMove::Home, y)),
        Msg::FormCaretEnd => cmd is None && row_changed(a, b, |x: FormField, y: FormField| moved(x, CaretMove::End, y)),
        Msg::FormSubmit => match a.form {
            Some(f) => b == (Model { form: None, ..a }) && cmd == Some(Cmd::SubmitForm(f)),
            None => b == a && cmd is None,
        },
        Msg::FormCancel => b == (Model { form: None, ..a }) && cmd is None,
        _ => false,
    }
}

/// The messages `form_step` covers.
pub open spec fn is_form_msg(msg: Msg) -> bool {
    match msg {
        Msg::FormInputChar(_) | Msg::FormBackspace | Msg::FormNext | Msg::FormPrev
        | Msg::FormCaretLeft | Msg::FormCaretRight | Msg::FormCaretUp | Msg::FormCaretDown
        | Msg::FormCaretHome | Msg::FormCaretEnd | Msg::FormSubmit | Msg::FormCancel => true,
        _ => false,
    }
}

/// `b` is `a` with only its sequence editor changed, as `p` relates the two.
pub open spec fn editor_changed_seq(a: Model, b: Model, p: spec_fn(SequenceEditorState, SequenceEditorState) -> bool) -> bool {
    &&& b == (Model { sequence_editor: b.sequence_editor, ..a })
    &&& match (a.sequence_editor, b.sequence_editor) {
        (Some(x), Some(y)) => p(x, y),
        (None, None) => true,
        _ => false,
    }
}

/// `b` is `a` with only its code editor changed, as `p` relates the two.
pub open spec fn editor_changed_code(a: Model, b: Model, p: spec_fn(CodeEditorState, CodeEditorState) -> bool) -> bool {
    &&& b == (Model { code_editor: b.code_editor, ..a })
    &&& match (a.code_editor, b.code_editor) {
        (Some(x), Some(y)) => p(x, y),
        (None, None) => true,
        _ => false,
    }
}

/// `b` is `a` with only its gherkin editor changed, as `p` relates the two.
pub open spec fn editor_changed_gh(a: Model, b: Model, p: spec_fn(GherkinEditorState, GherkinEditorState) -> bool) -> bool {
    &&& b == (Model { gherkin_editor: b.gherkin_editor, ..a })
    &&& match (a.gherkin_editor, b.gherkin_editor) {
        (Some(x), Some(y)) => p(x, y),
        (None, None) => true,
        _ => false,
    }
}

/// `b` is `a` with only its openapi editor changed, as `p` relates the two.
pub open spec fn editor_changed_oa(a: Model, b: Model, p: spec_fn(OpenApiEditorState, OpenApiEditorState) -> bool) -> bool {
    &&& b == (Model { openapi_editor: b.openapi_editor, ..a })
    &&& match (a.openapi_editor, b.openapi_editor) {
        (Some(x), Some(y)) => p(x, y),
        (None, None) => true,
        _ => false,
    }
}

/// What `update` does with the messages of the sequence-gram editor.
pub open spec fn seq_step(a: Model, msg: Msg, b: Model, cmd: Option<Cmd>) -> bool {
    match msg {
        Msg::SeqEdMove(d) => cmd is None && editor_changed_seq(a, b, |x: SequenceEditorState, y: SequenceEditorState| seq_move_event_post(x, y, d)),
        Msg::SeqEdMoveParticipant(d) => cmd is None && editor_changed_seq(a, b, |x: SequenceEditorState, y: SequenceEditorState| seq_move_participant_post(x, y, d)),
        Msg::SeqEdMoveDiagram(d) => cmd is None && editor_changed_seq(a, b, |x: SequenceEditorState, y: SequenceEditorState| seq_move_diagram_post(x, y, d)),
        Msg::SeqEdInputChar(c) => cmd is None && editor_changed_seq(a, b, |x: SequenceEditorState, y: SequenceEditorState| seq_input_char_post(x, y, c)),
        Msg::SeqEdBackspace => cmd is None && editor_changed_seq(a, b, |x: SequenceEditorState, y: SequenceEditorState| seq_backspace_post(x, y)),
        Msg::SeqEdStartAddParticipant => cmd is None && editor_changed_seq(a, b, |x: SequenceEditorState, y: SequenceEditorState| seq_start_add_participant_post(x, y)),
        Msg::SeqEdStartAddMessage => cmd is None && editor_changed_seq(a, b, |x: SequenceEditorState, y: SequenceEditorState| seq_start_add_message_post(x, y)),
        Msg::SeqEdToggleDashed => cmd is None && editor_changed_seq(a, b, |x: SequenceEditorState, y: SequenceEditorState| seq_toggle_dashed_post(x, y)),
        Msg::SeqEdCycleFrom(d) => cmd is None && editor_changed_seq(a, b, |x: SequenceEditorState, y: SequenceEditorState| seq_cycle_end_post(x, y, false, d)),
        Msg::SeqEdCycleTo(d) => cmd is None && editor_changed_seq(a, b, |x: SequenceEditorState, y: SequenceEditorState| seq_cycle_end_post(x, y, true, d)),
        Msg::SeqEdStartEditEdgeContext => cmd is None && editor_changed_seq(a, b, |x: SequenceEditorState, y: SequenceEditorState| seq_start_edit_edge_context_post(x, y)),
        Msg::SeqEdConfirm => cmd is None && editor_changed_seq(a, b, |x: SequenceEditorState, y: SequenceEditorState| seq_confirm_post(x, y)),
        Msg::SeqEdDeleteEvent => cmd is None && editor_changed_seq(a, b, |x: SequenceEditorState, y: SequenceEditorState| seq_delete_event_post(x, y)),
        Msg::SeqEdDeleteParticipant => cmd is None && editor_changed_seq(a, b, |x: SequenceEditorState, y: SequenceEditorState| seq_delete_participant_post(x, y)),
        Msg::SeqEdStartAddDiagram => cmd is None && editor_changed_seq(a, b, |x: SequenceEditorState, y: SequenceEditorState| seq_start_add_diagram_post(x, y)),
        Msg::SeqEdStartRenameDiagram => cmd is None && editor_changed_seq(a, b, |x: SequenceEditorState, y: SequenceEditorState| seq_start_rename_diagram_post(x, y)),
        Msg::SeqEdDeleteDiagram => cmd is None && editor_changed_seq(a, b, |x: SequenceEditorState, y: SequenceEditorState| seq_delete_diagram_post(x, y)),
        Msg::OpenSequenceEditor => cmd is None && if focused_kind_is(a, FieldKind::SequenceGram) {
            &&& b == (Model { sequence_editor: b.sequence_editor, ..a })
            &&& b.sequence_editor matches Some(ed) && ed.form_field_index == a.form->0.cursor
                && diagrams_view(ed.diagrams@) == parse_gram(focused(a)->0.value@) && ed.diagram_cursor
                == 0 && ed.event_cursor == 0 && ed.participant_cursor == 0 && ed.mode is Browse
        } else {
            b == a
        },
        Msg::SeqEdCancel => cmd is None && b == (Model { sequence_editor: None, ..a }),
        Msg::SeqEdSave => cmd is None && match a.sequence_editor {
            None => b == a,
            Some(ed) => b == (Model { sequence_editor: None, form: b.form, ..a }) && editor_saved(
                a,
                b,
                ed.form_field_index as int,
                diagrams_text(diagrams_view(ed.diagrams@)),
            ),
        },
        _ => false,
    }
}

/// What `update` does with the messages of the code-blocks editor.
pub open spec fn code_step(a: Model, msg: Msg, b: Model, cmd: Option<Cmd>) -> bool {
    match msg {
        Msg::CodeEdMoveBlock(d) => cmd is None && editor_changed_code(a, b, |x: CodeEditorState, y: CodeEditorState| code_move_block_post(x, y, d)),
        Msg::CodeEdInputChar(c) => cmd is None && editor_changed_code(a, b, |x: CodeEditorState, y: CodeEditorState| code_input_char_post(x, y, c)),
        Msg::CodeEdBackspace => cmd is None && editor_changed_code(a, b, |x: CodeEditorState, y: CodeEditorState| code_backspace_post(x, y)),
        Msg::CodeEdConfirm => cmd is None && editor_changed_code(a, b, |x: CodeEditorState, y: CodeEditorState| code_confirm_post(x, y)),
        Msg::CodeEdStartAddBlock => cmd is None && editor_changed_code(a, b, |x: CodeEditorState, y: CodeEditorState| code_start_add_block_post(x, y)),
        Msg::CodeEdStartRenameBlock => cmd is None && editor_changed_code(a, b, |x: CodeEditorState, y: CodeEditorState| code_start_rename_block_post(x, y)),
        Msg::CodeEdStartEditLanguage => cmd is None && editor_changed_code(a, b, |x: CodeEditorState, y: CodeEditorState| code_start_edit_language_post(x, y)),
        Msg::CodeEdStartEditCode => cmd is None && editor_changed_code(a, b, |x: CodeEditorState, y: CodeEditorState| code_start_edit_code_post(x, y)),
        Msg::CodeEdDeleteBlock => cmd is None && editor_changed_code(a, b, |x: CodeEditorState, y: CodeEditorState| code_delete_block_post(x, y)),
        Msg::CodeEdCaretLeft => cmd is None && editor_changed_code(a, b, |x: CodeEditorState, y: CodeEditorState| code_move_caret_post(x, y, CaretMove::Left)),
        Msg::CodeEdCaretRight => cmd is None && editor_changed_code(a, b, |x: CodeEditorState, y: CodeEditorState| code_move_caret_post(x, y, CaretMove::Right)),
        Msg::CodeEdCaretUp => cmd is None && editor_changed_code(a, b, |x: CodeEditorState, y: CodeEditorState| code_move_caret_post(x, y, CaretMove::Up)),
        Msg::CodeEdCaretDown => cmd is None && editor_changed_code(a, b, |x: CodeEditorState, y: CodeEditorState| code_move_caret_post(x, y, CaretMove::Down)),
        Msg::CodeEdCaretHome => cmd is None && editor_changed_code(a, b, |x: CodeEditorState, y: CodeEditorState| code_move_caret_post(x, y, CaretMove::Home)),
        Msg::CodeEdCaretEnd => cmd is None && editor_changed_code(a, b, |x: CodeEditorState, y: CodeEditorState| code_move_caret_post(x, y, CaretMove::End)),
        Msg::OpenCodeEditor => cmd is None && if focused_kind_is(a, FieldKind::CodeBlocks) {
            &&& b == (Model { code_editor: b.code_editor, ..a })
            &&& b.code_editor matches Some(ed) && ed.form_field_index == a.form->0.cursor
                && blocks_view(ed.blocks@) == parse_blocks(focused(a)->0.value@) && ed.block_cursor
                == 0 && ed.mode is Browse
        } else {
            b == a
        },
        Msg::CodeEdCancel => cmd is None && b == (Model { code_editor: None, ..a }),
        Msg::CodeEdSave => cmd is None && match a.code_editor {
            None => b == a,
            Some(ed) => b == (Model { code_editor: None, form: b.form, ..a }) && editor_saved(
                a,
                b,
                ed.form_field_index as int,
                render_blocks(blocks_view(ed.blocks@)),
            ),
        },
        _ => false,
    }
}

/// What `update` does with the messages of the Gherkin editor.
pub open spec fn gh_step(a: Model, msg: Msg, b: Model, cmd: Option<Cmd>) -> bool {
    match msg {
        Msg::GhEdMoveScenario(d) => cmd is None && editor_changed_gh(a, b, |x: GherkinEditorState, y: GherkinEditorState| gh_move_scenario_post(x, y, d)),
        Msg::GhEdMoveFeature(d) => cmd is None && editor_changed_gh(a, b, |x: GherkinEditorState, y: GherkinEditorState| gh_move_feature_post(x, y, d)),
        Msg::GhEdInputChar(c) => cmd is None && editor_changed_gh(a, b, |x: GherkinEditorState, y: GherkinEditorState| gh_input_char_post(x, y, c)),
        Msg::GhEdBackspace => cmd is None && editor_changed_gh(a, b, |x: GherkinEditorState, y: GherkinEditorState| gh_backspace_post(x, y)),
        Msg::GhEdStartAddScenario => cmd is None && editor_changed_gh(a, b, |x: GherkinEditorState, y: GherkinEditorState| gh_start_add_scenario_post(x, y)),
        Msg::GhEdStartRenameScenario => cmd is None && editor_changed_gh(a, b, |x: GherkinEditorState, y: GherkinEditorState| gh_start_rename_scenario_post(x, y)),
        Msg::GhEdStartEditFeature => cmd is None && editor_changed_gh(a, b, |x: GherkinEditorState, y: GherkinEditorState| gh_start_edit_feature_post(x, y)),
        Msg::GhEdStartEditBackground => cmd is None && editor_changed_gh(a, b, |x: GherkinEditorState, y: GherkinEditorState| gh_start_edit_background_post(x, y)),
        Msg::GhEdStartEditSteps => cmd is None && editor_changed_gh(a, b, |x: GherkinEditorState, y: GherkinEditorState| gh_start_edit_steps_post(x, y)),
        Msg::GhEdDeleteScenario => cmd is None && editor_changed_gh(a, b, |x: GherkinEditorState, y: GherkinEditorState| gh_delete_scenario_post(x, y)),
        Msg::GhEdStartAddFeature => cmd is None && editor_changed_gh(a, b, |x: GherkinEditorState, y: GherkinEditorState| gh_start_add_feature_post(x, y)),
        Msg::GhEdStartRenameFeature => cmd is None && editor_changed_gh(a, b, |x: GherkinEditorState, y: GherkinEditorState| gh_start_rename_feature_post(x, y)),
        Msg::GhEdDeleteFeature => cmd is None && editor_changed_gh(a, b, |x: GherkinEditorState, y: GherkinEditorState| gh_delete_feature_post(x, y)),
        Msg::GhEdCaretLeft => cmd is None && editor_changed_gh(a, b, |x: GherkinEditorState, y: GherkinEditorState| gh_move_caret_post(x, y, CaretMove::Left)),
        Msg::GhEdCaretRight => cmd is None && editor_changed_gh(a, b, |x: GherkinEditorState, y: GherkinEditorState| gh_move_caret_post(x, y, CaretMove::Right)),
        Msg::GhEdCaretUp => cmd is None && editor_changed_gh(a, b, |x: GherkinEditorState, y: GherkinEditorState| gh_move_caret_post(x, y, CaretMove::Up)),
        Msg::GhEdCaretDown => cmd is None && editor_changed_gh(a, b, |x: GherkinEditorState, y: GherkinEditorState| gh_move_caret_post(x, y, CaretMove::Down)),
        Msg::GhEdCaretHome => cmd is None && editor_changed_gh(a, b, |x: GherkinEditorState, y: GherkinEditorState| gh_move_caret_post(x, y, CaretMove::Home)),
        Msg::GhEdCaretEnd => cmd is None && editor_changed_gh(a, b, |x: GherkinEditorState, y: GherkinEditorState| gh_move_caret_post(x, y, CaretMove::End)),
        Msg::OpenGherkinEditor => cmd is None && if focused_kind_is(a, FieldKind::Gherkin) {
            &&& b == (Model { gherkin_editor: b.gherkin_editor, ..a })
            &&& b.gherkin_editor matches Some(ed) && ed.form_field_index == a.form->0.cursor
                && features_view(ed.features@) == parse_features(focused(a)->0.value@)
                && ed.feature_cursor == 0 && ed.scenario_cursor == 0 && ed.mode is Browse
        } else {
            b == a
        },
        Msg::GhEdCancel => cmd is None && b == (Model { gherkin_editor: None, ..a }),
        Msg::GhEdSave => cmd is None && match a.gherkin_editor {
            None => b == a,
            Some(ed) => b == (Model { gherkin_editor: None, form: b.form, ..a }) && editor_saved(
                a,
                b,
                ed.form_field_index as int,
                trim_end(features_text(features_view(ed.features@))),
            ),
        },
        Msg::GhEdConfirm => cmd is None && match a.gherkin_editor {
            None => b == a,
            Some(ed) => match gh_rejected(ed.mode) {
                Some(e) => toast_added(a, b, ToastLevel::Warn, e),
                None => editor_changed_gh(a, b, |x: GherkinEditorState, y: GherkinEditorState| gh_accepted(x, y)),
            },
        },
        _ => false,
    }
}

/// What `update` does with the messages of the OpenAPI editor.
pub open spec fn oa_step(a: Model, msg: Msg, b: Model, cmd: Option<Cmd>) -> bool {
    match msg {
        Msg::OaEdMoveEndpoint(d) => cmd is None && editor_changed_oa(a, b, |x: OpenApiEditorState, y: OpenApiEditorState| oa_move_endpoint_post(x, y, d)),
        Msg::OaEdScrollPreview(d) => cmd is None && editor_changed_oa(a, b, |x: OpenApiEditorState, y: OpenApiEditorState| oa_scroll_preview_post(x, y, d)),
        Msg::OaEdStartAddEndpoint => cmd is None && editor_changed_oa(a, b, |x: OpenApiEditorState, y: OpenApiEditorState| oa_start_add_endpoint_post(x, y)),
        Msg::OaEdDeleteEndpoint => cmd is None && editor_changed_oa(a, b, |x: OpenApiEditorState, y: OpenApiEditorState| oa_delete_endpoint_post(x, y)),
        Msg::OaEdTogglePane => cmd is None && editor_changed_oa(a, b, |x: OpenApiEditorState, y: OpenApiEditorState| oa_toggle_pane_post(x, y)),
        Msg::OaEdMoveSchema(d) => cmd is None && editor_changed_oa(a, b, |x: OpenApiEditorState, y: OpenApiEditorState| oa_move_schema_post(x, y, d)),
        Msg::OaEdStartAddSchema => cmd is None && editor_changed_oa(a, b, |x: OpenApiEditorState, y: OpenApiEditorState| oa_start_schema_prompt_post(x, y, 0u8)),
        Msg::OaEdDeleteSchema => cmd is None && editor_changed_oa(a, b, |x: OpenApiEditorState, y: OpenApiEditorState| oa_delete_schema_post(x, y)),
        Msg::OaEdStartRenameSchema => cmd is None && editor_changed_oa(a, b, |x: OpenApiEditorState, y: OpenApiEditorState| oa_start_rename_schema_post(x, y)),
        Msg::OaEdStartAddProp => cmd is None && editor_changed_oa(a, b, |x: OpenApiEditorState, y: OpenApiEditorState| oa_start_add_prop_post(x, y)),
        Msg::OaEdDeleteProp => cmd is None && editor_changed_oa(a, b, |x: OpenApiEditorState, y: OpenApiEditorState| oa_delete_prop_post(x, y)),
        Msg::OaEdTogglePropRequired => cmd is None && editor_changed_oa(a, b, |x: OpenApiEditorState, y: OpenApiEditorState| oa_tweak_prop_post(x, y, 0u8, 0isize)),
        Msg::OaEdCyclePropType(d) => cmd is None && editor_changed_oa(a, b, |x: OpenApiEditorState, y: OpenApiEditorState| oa_tweak_prop_post(x, y, 2u8, d)),
        Msg::OaEdTogglePropNullable => cmd is None && editor_changed_oa(a, b, |x: OpenApiEditorState, y: OpenApiEditorState| oa_tweak_prop_post(x, y, 1u8, 0isize)),
        Msg::OaEdCyclePropFormat(d) => cmd is None && editor_changed_oa(a, b, |x: OpenApiEditorState, y: OpenApiEditorState| oa_tweak_prop_post(x, y, 3u8, d)),
        Msg::OaEdStartRenameProp => cmd is None && editor_changed_oa(a, b, |x: OpenApiEditorState, y: OpenApiEditorState| oa_start_rename_prop_post(x, y)),
        Msg::OaEdStartEditPropMin => cmd is None && editor_changed_oa(a, b, |x: OpenApiEditorState, y: OpenApiEditorState| oa_start_schema_prompt_post(x, y, 3u8)),
        Msg::OaEdStartEditPropMax => cmd is None && editor_changed_oa(a, b, |x: OpenApiEditorState, y: OpenApiEditorState| oa_start_schema_prompt_post(x, y, 4u8)),
        Msg::OaEdStartEditPropPattern => cmd is None && editor_changed_oa(a, b, |x: OpenApiEditorState, y: OpenApiEditorState| oa_start_schema_prompt_post(x, y, 1u8)),
        Msg::OaEdStartEditPropEnum => cmd is None && editor_changed_oa(a, b, |x: OpenApiEditorState, y: OpenApiEditorState| oa_start_schema_prompt_post(x, y, 2u8)),
        Msg::OaEdMoveProp(d) => cmd is None && editor_changed_oa(a, b, |x: OpenApiEditorState, y: OpenApiEditorState| oa_move_prop_post(x, y, d)),
        Msg::OaEdCycleMethod(d) => cmd is None && editor_changed_oa(a, b, |x: OpenApiEditorState, y: OpenApiEditorState| oa_tweak_endpoint_post(x, y, 0u8, d)),
        Msg::OaEdCycleReqBody(d) => cmd is None && editor_changed_oa(a, b, |x: OpenApiEditorState, y: OpenApiEditorState| oa_tweak_endpoint_post(x, y, 1u8, d)),
        Msg::OaEdCycleRespBody(d) => cmd is None && editor_changed_oa(a, b, |x: OpenApiEditorState, y: OpenApiEditorState| oa_tweak_endpoint_post(x, y, 2u8, d)),
        Msg::OaEdCycleStatus(d) => cmd is None && editor_changed_oa(a, b, |x: OpenApiEditorState, y: OpenApiEditorState| oa_tweak_endpoint_post(x, y, 3u8, d)),
        Msg::OaEdCycleReqContentType(d) => cmd is None && editor_changed_oa(a, b, |x: OpenApiEditorState, y: OpenApiEditorState| oa_tweak_endpoint_post(x, y, 4u8, d)),
        Msg::OaEdStartEditPath => cmd is None && editor_changed_oa(a, b, |x: OpenApiEditorState, y: OpenApiEditorState| oa_start_edit_path_post(x, y)),
        Msg::OaEdStartEditTitle => cmd is None && editor_changed_oa(a, b, |x: OpenApiEditorState, y: OpenApiEditorState| oa_start_edit_info_post(x, y, 0u8)),
        Msg::OaEdStartEditVersion => cmd is None && editor_changed_oa(a, b, |x: OpenApiEditorState, y: OpenApiEditorState| oa_start_edit_info_post(x, y, 1u8)),
        Msg::OaEdStartEditBaseUrl => cmd is None && editor_changed_oa(a, b, |x: OpenApiEditorState, y: OpenApiEditorState| oa_start_edit_info_post(x, y, 2u8)),
        Msg::OaEdInputChar(c) => cmd is None && editor_changed_oa(a, b, |x: OpenApiEditorState, y: OpenApiEditorState| oa_input_char_post(x, y, c)),
        Msg::OaEdBackspace => cmd is None && editor_changed_oa(a, b, |x: OpenApiEditorState, y: OpenApiEditorState| oa_backspace_post(x, y)),
        Msg::OaEdConfirm => cmd is None && editor_changed_oa(a, b, |x: OpenApiEditorState, y: OpenApiEditorState| oa_confirm_post(x, y)),
        Msg::OpenOpenApiEditor => cmd is None && if focused_kind_is(a, FieldKind::OpenApi) {
            let pc = parse_contract(focused(a)->0.value@);
            &&& b == (Model { openapi_editor: b.openapi_editor, ..a })
            &&& b.openapi_editor matches Some(ed) && ed.form_field_index == a.form->0.cursor
                && ed.title@ == pc.0 && ed.version@ == pc.1 && ed.base_url@ == pc.2
                && endpoints_view(ed.endpoints@) == pc.3 && ed.endpoint_cursor == 0
                && ed.schemas@.len() == 0 && ed.schema_cursor == 0 && ed.prop_cursor == 0
                && ed.preview_scroll == 0 && ed.mode is Browse
        } else {
            b == a
        },
        Msg::OaEdCancel => cmd is None && b == (Model { openapi_editor: None, ..a }),
        Msg::OaEdSave => cmd is None && match a.openapi_editor {
            None => b == a,
            Some(ed) => b == (Model { openapi_editor: None, form: b.form, ..a }) && editor_saved(
                a,
                b,
                ed.form_field_index as int,
                contract_text(ed.title@, ed.version@, ed.base_url@, endpoints_view(ed.endpoints@), ed.schemas@),
            ),
        },
        _ => false,
    }
}

/// What `update` does with the messages of the four editors.
pub open spec fn editor_step(a: Model, msg: Msg, b: Model, cmd: Option<Cmd>) -> bool {
    if is_seq_msg(msg) {
        seq_step(a, msg, b, cmd)
    } else if is_code_msg(msg) {
        code_step(a, msg, b, cmd)
    } else if is_gh_msg(msg) {
        gh_step(a, msg, b, cmd)
    } else {
        oa_step(a, msg, b, cmd)
    }
}

/// What `update` does: the next state `b` and the command `cmd` for the
/// state `a` and the message `msg`.
pub open spec fn stepped(a: Model, msg: Msg, b: Model, cmd: Option<Cmd>) -> bool {
    if is_app_msg(msg) {
        app_step(a, msg, b, cmd)
    } else if is_form_msg(msg) {
        form_step(a, msg, b, cmd)
    } else {
        editor_step(a, msg, b, cmd)
    }
}

// ---------------------------------------------------------------------
// `update`.

/// Writes an editor's text into the form row it edits, with the caret at
/// its end.
fn save_into_form(model: &mut Model, i: usize, text: String)
    requires
        old(model).wf(),
    ensures
        *final(model) == (Model { form: final(model).form, ..*old(model) }),
        editor_saved(*old(model), *final(model), i as int, text@),
        final(model).wf(),
{
    match &mut model.form {
        Some(form) => {
            if i < form.fields.len() {
                let ghost f0 = *form;
                let mut row = form.fields.remove(i);
                let n = str_byte_len(text.as_str());
                row.value = text;
                row.set_caret(n);
                proof {
                    assert(row.value@.take(row.value@.len() as int) =~= row.value@);
                    crate::utf8::lemma_floor_idx(row.value@, n as int);
                    crate::utf8::lemma_boundary_idx(row.value@, row.value@.len() as int);
                }
                form.fields.insert(i, row);
                proof {
                    assert forall|j: int| 0 <= j < form.fields.len() implies (#[trigger] form.fields@[j]).caret_ok() by {
                        if j != i {
                            assert(form.fields@[j] == f0.fields@[j]);
                        }
                    }
                }
            }
        },
        None => {},
    }
}

#[verifier::rlimit(40)]
fn form_next(model: &mut Model)
    requires
        old(model).wf(),
    ensures
        form_step(*old(model), Msg::FormNext, *final(model), None),
        final(model).wf(),
{
    match &mut model.form {
        Some(f) => {
            let ghost f0 = *f;
            let n = f.fields.len();
            let m = if n == 0 {
                1
            } else {
                n
            };
            f.cursor = (f.cursor + 1) % m;
            if f.cursor < n {
                let c = f.cursor;
                let mut row = f.fields.remove(c);
                row.caret = str_byte_len(row.value.as_str());
                proof {
                    lemma_end_caret_ok(row);
                }
                f.fields.insert(c, row);
                proof {
                    assert(f.fields@ =~= f0.fields@.update(c as int, FormField { caret: byte_len(f0.fields@[c as int].value@) as usize, ..f0.fields@[c as int] }));
                }
            }
        },
        None => {},
    }
}

#[verifier::rlimit(40)]
fn form_prev(model: &mut Model)
    requires
        old(model).wf(),
    ensures
        form_step(*old(model), Msg::FormPrev, *final(model), None),
        final(model).wf(),
{
    match &mut model.form {
        Some(f) => {
            let ghost f0 = *f;
            let n = f.fields.len();
            let m = if n == 0 {
                1
            } else {
                n
            };
            proof {
                if f.cursor == 0 {
                    vstd::arithmetic::div_mod::lemma_small_mod((m - 1) as nat, m as nat);
                } else {
                    vstd::arithmetic::div_mod::lemma_mod_add_multiples_vanish(f.cursor - 1, m as int);
                    vstd::arithmetic::div_mod::lemma_small_mod((f.cursor - 1) as nat, m as nat);
                }
            }
            f.cursor = if f.cursor == 0 {
                m - 1
            } else {
                f.cursor - 1
            };
            if f.cursor < n {
                let c = f.cursor;
                let mut row = f.fields.remove(c);
                row.caret = str_byte_len(row.value.as_str());
                proof {
                    lemma_end_caret_ok(row);
                }
                f.fields.insert(c, row);
                proof {
                    assert(f.fields@ =~= f0.fields@.update(c as int, FormField { caret: byte_len(f0.fields@[c as int].value@) as usize, ..f0.fields@[c as int] }));
                }
            }
        },
        None => {},
    }
}

/// `update` for the form messages.
fn update_form(model: &mut Model, msg: Msg) -> (r: Option<Cmd>)
    requires
        is_form_msg(msg),
        old(model).wf(),
    ensures
        form_step(*old(model), msg, *final(model), r),
        final(model).wf(),
{
    match msg {
        Msg::FormInputChar(c) => {
            form_edit(model, Some(c));
            None
        },
        Msg::FormBackspace => {
            form_edit(model, None);
            None
        },
        Msg::FormNext => {
            form_next(model);
            None
        },
        Msg::FormPrev => {
            form_prev(model);
            None
        },
        Msg::FormCaretLeft => {
            form_caret(model, CaretMove::Left);
            None
        },
        Msg::FormCaretRight => {
            form_caret(model, CaretMove::Right);
            None
        },
        Msg::FormCaretUp => {
            form_caret(model, CaretMove::Up);
            None
        },
        Msg::FormCaretDown => {
            form_caret(model, CaretMove::Down);
            None
        },
        Msg::FormCaretHome => {
            form_caret(model, CaretMove::Home);
            None
        },
        Msg::FormCaretEnd => {
            form_caret(model, CaretMove::End);
            None
        },
        Msg::FormSubmit => {
            let taken = model.form.take();
            match taken {
                Some(f) => Some(Cmd::SubmitForm(f)),
                None => None,
            }
        },
        Msg::FormCancel => {
            model.form = None;
            None
        },
        _ => None,
    }
}

/// Types `c` (or, with none, deletes backwards) in the focused row,
/// unless its kind has an editor of its own: then says so.
fn form_edit(model: &mut Model, c: Option<char>)
    requires
        old(model).wf(),
    ensures
        final(model).wf(),
        match focused(*old(model)) {
            Some(r) => match read_only_note(r.kind) {
                Some(t) => toast_added(*old(model), *final(model), ToastLevel::Info, t),
                None => match c {
                    Some(ch) => row_changed(*old(model), *final(model), |x: FormField, y: FormField| typed(x, ch, y)),
                    None => row_changed(*old(model), *final(model), |x: FormField, y: FormField| erased(x, y)),
                },
            },
            None => *final(model) == *old(model),
        },
{
    let note: Option<&str> = match &model.form {
        Some(f) => {
            if f.cursor < f.fields.len() {
                proof {
                    reveal_strlit("sequence-gram is read-only here; press F3 to edit");
                    reveal_strlit("code-blocks is read-only here; press F4 to edit");
                    reveal_strlit("gherkin is read-only here; press F5 to edit");
                    reveal_strlit("openapi is read-only here; press F6 to edit");
                }
                match f.fields[f.cursor].kind {
                    Some(FieldKind::SequenceGram) => Some("sequence-gram is read-only here; press F3 to edit"),
                    Some(FieldKind::CodeBlocks) => Some("code-blocks is read-only here; press F4 to edit"),
                    Some(FieldKind::Gherkin) => Some("gherkin is read-only here; press F5 to edit"),
                    Some(FieldKind::OpenApi) => Some("openapi is read-only here; press F6 to edit"),
                    _ => None,
                }
            } else {
                None
            }
        },
        None => None,
    };
    match note {
        Some(t) => {
            push_toast(model, ToastLevel::Info, t);
            return;
        },
        None => {},
    }
    match &mut model.form {
        Some(f) => {
            if f.cursor < f.fields.len() {
                let ghost f0 = *f;
                let i = f.cursor;
                let mut row = f.fields.remove(i);
                proof {
                    assert(row == f0.fields@[i as int]);
                    assert(row.caret_ok());
                }
                match c {
                    Some(ch) => row.insert_char(ch),
                    None => row.backspace(),
                }
                f.fields.insert(i, row);
                proof {
                    assert forall|j: int| 0 <= j < f.fields.len() implies (#[trigger] f.fields@[j]).caret_ok() by {
                        if j != i {
                            assert(f.fields@[j] == f0.fields@[j]);
                        }
                    }
                }
            }
        },
        None => {},
    }
}

/// Moves the caret of the focused row.
fn form_caret(model: &mut Model, m: CaretMove)
    requires
        old(model).wf(),
    ensures
        final(model).wf(),
        row_changed(*old(model), *final(model), |x: FormField, y: FormField| moved(x, m, y)),
{
    match &mut model.form {
        Some(f) => {
            if f.cursor < f.fields.len() {
                let ghost f0 = *f;
                let i = f.cursor;
                let mut row = f.fields.remove(i);
                proof {
                    assert(row == f0.fields@[i as int]);
                }
                row.move_caret(m);
                f.fields.insert(i, row);
                proof {
                    assert forall|j: int| 0 <= j < f.fields.len() implies (#[trigger] f.fields@[j]).caret_ok() by {
                        if j != i {
                            assert(f.fields@[j] == f0.fields@[j]);
                        }
                    }
                }
            }
        },
        None => {},
    }
}

/// The messages of the sequence editor.
pub open spec fn is_seq_msg(msg: Msg) -> bool {
    match msg {
        Msg::SeqEdMove(_) | Msg::SeqEdMoveParticipant(_) | Msg::SeqEdMoveDiagram(_) | Msg::SeqEdInputChar(_) | Msg::SeqEdBackspace | Msg::SeqEdStartAddParticipant | Msg::SeqEdStartAddMessage | Msg::SeqEdToggleDashed | Msg::SeqEdCycleFrom(_) | Msg::SeqEdCycleTo(_) | Msg::SeqEdStartEditEdgeContext | Msg::SeqEdConfirm | Msg::SeqEdDeleteEvent | Msg::SeqEdDeleteParticipant | Msg::SeqEdStartAddDiagram | Msg::SeqEdStartRenameDiagram | Msg::SeqEdDeleteDiagram | Msg::OpenSequenceEditor | Msg::SeqEdCancel | Msg::SeqEdSave => true,
        _ => false,
    }
}

/// `update` for the messages of the sequence editor.
fn update_seq(model: &mut Model, msg: Msg) -> (r: Option<Cmd>)
    requires
        is_seq_msg(msg),
        old(model).wf(),
    ensures
        seq_step(*old(model), msg, *final(model), r),
        final(model).wf(),
{
    match msg {
        Msg::SeqEdMove(d) => {
            match &mut model.sequence_editor {
                Some(ed) => {
                    ed.move_event(d);
                },
                None => {},
            }
            None
        },
        Msg::SeqEdMoveParticipant(d) => {
            match &mut model.sequence_editor {
                Some(ed) => {
                    ed.move_participant(d);
                },
                None => {},
            }
            None
        },
        Msg::SeqEdMoveDiagram(d) => {
            match &mut model.sequence_editor {
                Some(ed) => {
                    ed.move_diagram(d);
                },
                None => {},
            }
            None
        },
        Msg::SeqEdInputChar(c) => {
            match &mut model.sequence_editor {
                Some(ed) => {
                    ed.input_char(c);
                },
                None => {},
            }
            None
        },
        Msg::SeqEdBackspace => {
            match &mut model.sequence_editor {
                Some(ed) => {
                    ed.backspace();
                },
                None => {},
            }
            None
        },
        Msg::SeqEdStartAddParticipant => {
            match &mut model.sequence_editor {
                Some(ed) => {
                    ed.start_add_participant();
                },
                None => {},
            }
            None
        },
        Msg::SeqEdStartAddMessage => {
            match &mut model.sequence_editor {
                Some(ed) => {
                    ed.start_add_message();
                },
                None => {},
            }
            None
        },
        Msg::SeqEdToggleDashed => {
            match &mut model.sequence_editor {
                Some(ed) => {
                    ed.toggle_dashed();
                },
                None => {},
            }
            None
        },
        Msg::SeqEdCycleFrom(d) => {
            match &mut model.sequence_editor {
                Some(ed) => {
                    ed.cycle_end(false, d);
                },
                None => {},
            }
            None
        },
        Msg::SeqEdCycleTo(d) => {
            match &mut model.sequence_editor {
                Some(ed) => {
                    ed.cycle_end(true, d);
                },
                None => {},
            }
            None
        },
        Msg::SeqEdStartEditEdgeContext => {
            match &mut model.sequence_editor {
                Some(ed) => {
                    ed.start_edit_edge_context();
                },
                None => {},
            }
            None
        },
        Msg::SeqEdConfirm => {
            match &mut model.sequence_editor {
                Some(ed) => {
                    ed.confirm();
                },
                None => {},
            }
            None
        },
        Msg::SeqEdDeleteEvent => {
            match &mut model.sequence_editor {
                Some(ed) => {
                    ed.delete_event();
                },
                None => {},
            }
            None
        },
        Msg::SeqEdDeleteParticipant => {
            match &mut model.sequence_editor {
                Some(ed) => {
                    ed.delete_participant();
                },
                None => {},
            }
            None
        },
        Msg::SeqEdStartAddDiagram => {
            match &mut model.sequence_editor {
                Some(ed) => {
                    ed.start_add_diagram();
                },
                None => {},
            }
            None
        },
        Msg::SeqEdStartRenameDiagram => {
            match &mut model.sequence_editor {
                Some(ed) => {
                    ed.start_rename_diagram();
                },
                None => {},
            }
            None
        },
        Msg::SeqEdDeleteDiagram => {
            match &mut model.sequence_editor {
                Some(ed) => {
                    ed.delete_diagram();
                },
                None => {},
            }
            None
        },
        Msg::OpenSequenceEditor => {
            match &model.form {
                Some(form) => {
                    if form.cursor < form.fields.len() && form.fields[form.cursor].kind == Some(FieldKind::SequenceGram) {
                        let diagrams = parse_sequence_gram(form.fields[form.cursor].value.as_str());
                        let ed = SequenceEditorState {
                            form_field_index: form.cursor,
                            diagrams,
                            diagram_cursor: 0,
                            event_cursor: 0,
                            participant_cursor: 0,
                            mode: SequenceEditorMode::Browse,
                        };
                        model.sequence_editor = Some(ed);
                    }
                },
                None => {},
            }
            None
        },
        Msg::SeqEdCancel => {
            model.sequence_editor = None;
            None
        },
        Msg::SeqEdSave => {
            let taken = model.sequence_editor.take();
            match taken {
                Some(ed) => {
                    let text = render_sequence_gram(&ed.diagrams);
                    save_into_form(model, ed.form_field_index, text);
                },
                None => {},
            }
            None
        },
        _ => None,
    }
}

/// The messages of the code editor.
pub open spec fn is_code_msg(msg: Msg) -> bool {
    match msg {
        Msg::CodeEdMoveBlock(_) | Msg::CodeEdInputChar(_) | Msg::CodeEdBackspace | Msg::CodeEdConfirm | Msg::CodeEdStartAddBlock | Msg::CodeEdStartRenameBlock | Msg::CodeEdStartEditLanguage | Msg::CodeEdStartEditCode | Msg::CodeEdDeleteBlock | Msg::CodeEdCaretLeft | Msg::CodeEdCaretRight | Msg::CodeEdCaretUp | Msg::CodeEdCaretDown | Msg::CodeEdCaretHome | Msg::CodeEdCaretEnd | Msg::OpenCodeEditor | Msg::CodeEdCancel | Msg::CodeEdSave => true,
        _ => false,
    }
}

/// `update` for the messages of the code editor.
fn update_code(model: &mut Model, msg: Msg) -> (r: Option<Cmd>)
    requires
        is_code_msg(msg),
        old(model).wf(),
    ensures
        code_step(*old(model), msg, *final(model), r),
        final(model).wf(),
{
    match msg {
        Msg::CodeEdMoveBlock(d) => {
            match &mut model.code_editor {
                Some(ed) => {
                    ed.move_block(d);
                },
                None => {},
            }
            None
        },
        Msg::CodeEdInputChar(c) => {
            match &mut model.code_editor {
                Some(ed) => {
                    ed.input_char(c);
                },
                None => {},
            }
            None
        },
        Msg::CodeEdBackspace => {
            match &mut model.code_editor {
                Some(ed) => {
                    ed.backspace();
                },
                None => {},
            }
            None
        },
        Msg::CodeEdConfirm => {
            match &mut model.code_editor {
                Some(ed) => {
                    ed.confirm();
                },
                None => {},
            }
            None
        },
        Msg::CodeEdStartAddBlock => {
            match &mut model.code_editor {
                Some(ed) => {
                    ed.start_add_block();
                },
                None => {},
            }
            None
        },
        Msg::CodeEdStartRenameBlock => {
            match &mut model.code_editor {
                Some(ed) => {
                    ed.start_rename_block();
                },
                None => {},
            }
            None
        },
        Msg::CodeEdStartEditLanguage => {
            match &mut model.code_editor {
                Some(ed) => {
                    ed.start_edit_language();
                },
                None => {},
            }
            None
        },
        Msg::CodeEdStartEditCode => {
            match &mut model.code_editor {
                Some(ed) => {
                    ed.start_edit_code();
                },
                None => {},
            }
            None
        },
        Msg::CodeEdDeleteBlock => {
            match &mut model.code_editor {
                Some(ed) => {
                    ed.delete_block();
                },
                None => {},
            }
            None
        },
        Msg::CodeEdCaretLeft => {
            match &mut model.code_editor {
                Some(ed) => {
                    ed.move_caret(CaretMove::Left);
                },
                None => {},
            }
            None
        },
        Msg::CodeEdCaretRight => {
            match &mut model.code_editor {
                Some(ed) => {
                    ed.move_caret(CaretMove::Right);
                },
                None => {},
            }
            None
        },
        Msg::CodeEdCaretUp => {
            match &mut model.code_editor {
                Some(ed) => {
                    ed.move_caret(CaretMove::Up);
                },
                None => {},
            }
            None
        },
        Msg::CodeEdCaretDown => {
            match &mut model.code_editor {
                Some(ed) => {
                    ed.move_caret(CaretMove::Down);
                },
                None => {},
            }
            None
        },
        Msg::CodeEdCaretHome => {
            match &mut model.code_editor {
                Some(ed) => {
                    ed.move_caret(CaretMove::Home);
                },
                None => {},
            }
            None
        },
        Msg::CodeEdCaretEnd => {
            match &mut model.code_editor {
                Some(ed) => {
                    ed.move_caret(CaretMove::End);
                },
                None => {},
            }
            None
        },
        Msg::OpenCodeEditor => {
            match &model.form {
                Some(form) => {
                    if form.cursor < form.fields.len() && form.fields[form.cursor].kind == Some(FieldKind::CodeBlocks) {
                        let blocks = parse_code_blocks(form.fields[form.cursor].value.as_str());
                        let ed = CodeEditorState {
                            form_field_index: form.cursor,
                            blocks,
                            block_cursor: 0,
                            mode: CodeEditorMode::Browse,
                        };
                        model.code_editor = Some(ed);
                    }
                },
                None => {},
            }
            None
        },
        Msg::CodeEdCancel => {
            model.code_editor = None;
            None
        },
        Msg::CodeEdSave => {
            let taken = model.code_editor.take();
            match taken {
                Some(ed) => {
                    let text = render_code_blocks(&ed.blocks);
                    save_into_form(model, ed.form_field_index, text);
                },
                None => {},
            }
            None
        },
        _ => None,
    }
}

/// The messages of the gherkin editor.
pub open spec fn is_gh_msg(msg: Msg) -> bool {
    match msg {
        Msg::GhEdMoveScenario(_) | Msg::GhEdMoveFeature(_) | Msg::GhEdInputChar(_) | Msg::GhEdBackspace | Msg::GhEdStartAddScenario | Msg::GhEdStartRenameScenario | Msg::GhEdStartEditFeature | Msg::GhEdStartEditBackground | Msg::GhEdStartEditSteps | Msg::GhEdDeleteScenario | Msg::GhEdStartAddFeature | Msg::GhEdStartRenameFeature | Msg::GhEdDeleteFeature | Msg::GhEdCaretLeft | Msg::GhEdCaretRight | Msg::GhEdCaretUp | Msg::GhEdCaretDown | Msg::GhEdCaretHome | Msg::GhEdCaretEnd | Msg::OpenGherkinEditor | Msg::GhEdCancel | Msg::GhEdSave | Msg::GhEdConfirm => true,
        _ => false,
    }
}

/// `update` for the messages of the gherkin editor.
fn update_gh(model: &mut Model, msg: Msg) -> (r: Option<Cmd>)
    requires
        is_gh_msg(msg),
        old(model).wf(),
    ensures
        gh_step(*old(model), msg, *final(model), r),
        final(model).wf(),
{
    match msg {
        Msg::GhEdMoveScenario(d) => {
            match &mut model.gherkin_editor {
                Some(ed) => {
                    ed.move_scenario(d);
                },
                None => {},
            }
            None
        },
        Msg::GhEdMoveFeature(d) => {
            match &mut model.gherkin_editor {
                Some(ed) => {
                    ed.move_feature(d);
                },
                None => {},
            }
            None
        },
        Msg::GhEdInputChar(c) => {
            match &mut model.gherkin_editor {
                Some(ed) => {
                    ed.input_char(c);
                },
                None => {},
            }
            None
        },
        Msg::GhEdBackspace => {
            match &mut model.gherkin_editor {
                Some(ed) => {
                    ed.backspace();
                },
                None => {},
            }
            None
        },
        Msg::GhEdStartAddScenario => {
            match &mut model.gherkin_editor {
                Some(ed) => {
                    ed.start_add_scenario();
                },
                None => {},
            }
            None
        },
        Msg::GhEdStartRenameScenario => {
            match &mut model.gherkin_editor {
                Some(ed) => {
                    ed.start_rename_scenario();
                },
                None => {},
            }
            None
        },
        Msg::GhEdStartEditFeature => {
            match &mut model.gherkin_editor {
                Some(ed) => {
                    ed.start_edit_feature();
                },
                None => {},
            }
            None
        },
        Msg::GhEdStartEditBackground => {
            match &mut model.gherkin_editor {
                Some(ed) => {
                    ed.start_edit_background();
                },
                None => {},
            }
            None
        },
        Msg::GhEdStartEditSteps => {
            match &mut model.gherkin_editor {
                Some(ed) => {
                    ed.start_edit_steps();
                },
                None => {},
            }
            None
        },
        Msg::GhEdDeleteScenario => {
            match &mut model.gherkin_editor {
                Some(ed) => {
                    ed.delete_scenario();
                },
                None => {},
            }
            None
        },
        Msg::GhEdStartAddFeature => {
            match &mut model.gherkin_editor {
                Some(ed) => {
                    ed.start_add_feature();
                },
                None => {},
            }
            None
        },
        Msg::GhEdStartRenameFeature => {
            match &mut model.gherkin_editor {
                Some(ed) => {
                    ed.start_rename_feature();
                },
                None => {},
            }
            None
        },
        Msg::GhEdDeleteFeature => {
            match &mut model.gherkin_editor {
                Some(ed) => {
                    ed.delete_feature();
                },
                None => {},
            }
            None
        },
        Msg::GhEdCaretLeft => {
            match &mut model.gherkin_editor {
                Some(ed) => {
                    ed.move_caret(CaretMove::Left);
                },
                None => {},
            }
            None
        },
        Msg::GhEdCaretRight => {
            match &mut model.gherkin_editor {
                Some(ed) => {
                    ed.move_caret(CaretMove::Right);
                },
                None => {},
            }
            None
        },
        Msg::GhEdCaretUp => {
            match &mut model.gherkin_editor {
                Some(ed) => {
                    ed.move_caret(CaretMove::Up);
                },
                None => {},
            }
            None
        },
        Msg::GhEdCaretDown => {
            match &mut model.gherkin_editor {
                Some(ed) => {
                    ed.move_caret(CaretMove::Down);
                },
                None => {},
            }
            None
        },
        Msg::GhEdCaretHome => {
            match &mut model.gherkin_editor {
                Some(ed) => {
                    ed.move_caret(CaretMove::Home);
                },
                None => {},
            }
            None
        },
        Msg::GhEdCaretEnd => {
            match &mut model.gherkin_editor {
                Some(ed) => {
                    ed.move_caret(CaretMove::End);
                },
                None => {},
            }
            None
        },
        Msg::OpenGherkinEditor => {
            match &model.form {
                Some(form) => {
                    if form.cursor < form.fields.len() && form.fields[form.cursor].kind == Some(FieldKind::Gherkin) {
                        let features = parse_gherkin_features(form.fields[form.cursor].value.as_str());
                        let ed = GherkinEditorState {
                            form_field_index: form.cursor,
                            features,
                            feature_cursor: 0,
                            scenario_cursor: 0,
                            mode: GherkinEditorMode::Browse,
                        };
                        model.gherkin_editor = Some(ed);
                    }
                },
                None => {},
            }
            None
        },
        Msg::GhEdCancel => {
            model.gherkin_editor = None;
            None
        },
        Msg::GhEdSave => {
            let taken = model.gherkin_editor.take();
            match taken {
                Some(ed) => {
                    let text = render_gherkin_features(&ed.features);
                    save_into_form(model, ed.form_field_index, text);
                },
                None => {},
            }
            None
        },
        Msg::GhEdConfirm => {
            let warn = match &mut model.gherkin_editor {
                Some(ed) => ed.confirm(),
                None => None,
            };
            match warn {
                Some(w) => push_toast(model, ToastLevel::Warn, w.as_str()),
                None => {},
            }
            None
        },
        _ => None,
    }
}

/// The messages of the openapi editor.
pub open spec fn is_oa_msg(msg: Msg) -> bool {
    match msg {
        Msg::OaEdMoveEndpoint(_) | Msg::OaEdScrollPreview(_) | Msg::OaEdStartAddEndpoint | Msg::OaEdDeleteEndpoint | Msg::OaEdTogglePane | Msg::OaEdMoveSchema(_) | Msg::OaEdStartAddSchema | Msg::OaEdDeleteSchema | Msg::OaEdStartRenameSchema | Msg::OaEdStartAddProp | Msg::OaEdDeleteProp | Msg::OaEdTogglePropRequired | Msg::OaEdCyclePropType(_) | Msg::OaEdTogglePropNullable | Msg::OaEdCyclePropFormat(_) | Msg::OaEdStartRenameProp | Msg::OaEdStartEditPropMin | Msg::OaEdStartEditPropMax | Msg::OaEdStartEditPropPattern | Msg::OaEdStartEditPropEnum | Msg::OaEdMoveProp(_) | Msg::OaEdCycleMethod(_) | Msg::OaEdCycleReqBody(_) | Msg::OaEdCycleRespBody(_) | Msg::OaEdCycleStatus(_) | Msg::OaEdCycleReqContentType(_) | Msg::OaEdStartEditPath | Msg::OaEdStartEditTitle | Msg::OaEdStartEditVersion | Msg::OaEdStartEditBaseUrl | Msg::OaEdInputChar(_) | Msg::OaEdBackspace | Msg::OaEdConfirm | Msg::OpenOpenApiEditor | Msg::OaEdCancel | Msg::OaEdSave => true,
        _ => false,
    }
}

/// The messages of one half of the openapi editor's.
pub open spec fn is_oa_msg_1(msg: Msg) -> bool {
    match msg {
        Msg::OaEdMoveEndpoint(_) | Msg::OaEdScrollPreview(_) | Msg::OaEdStartAddEndpoint | Msg::OaEdDeleteEndpoint | Msg::OaEdTogglePane | Msg::OaEdMoveSchema(_) | Msg::OaEdStartAddSchema | Msg::OaEdDeleteSchema | Msg::OaEdStartRenameSchema | Msg::OaEdStartAddProp | Msg::OaEdDeleteProp | Msg::OaEdTogglePropRequired | Msg::OaEdCyclePropType(_) | Msg::OaEdTogglePropNullable | Msg::OaEdCyclePropFormat(_) | Msg::OaEdStartRenameProp | Msg::OaEdStartEditPropMin | Msg::OaEdStartEditPropMax => true,
        _ => false,
    }
}

fn is_oa_msg_1_exec(msg: &Msg) -> (r: bool)
    ensures
        r == is_oa_msg_1(*msg),
{
    match msg {
        Msg::OaEdMoveEndpoint(_) | Msg::OaEdScrollPreview(_) | Msg::OaEdStartAddEndpoint | Msg::OaEdDeleteEndpoint | Msg::OaEdTogglePane | Msg::OaEdMoveSchema(_) | Msg::OaEdStartAddSchema | Msg::OaEdDeleteSchema | Msg::OaEdStartRenameSchema | Msg::OaEdStartAddProp | Msg::OaEdDeleteProp | Msg::OaEdTogglePropRequired | Msg::OaEdCyclePropType(_) | Msg::OaEdTogglePropNullable | Msg::OaEdCyclePropFormat(_) | Msg::OaEdStartRenameProp | Msg::OaEdStartEditPropMin | Msg::OaEdStartEditPropMax => true,
        _ => false,
    }
}

fn update_oa_1(model: &mut Model, msg: Msg) -> (r: Option<Cmd>)
    requires
        is_oa_msg_1(msg),
        old(model).wf(),
    ensures
        oa_step(*old(model), msg, *final(model), r),
        final(model).wf(),
{
    match msg {
        Msg::OaEdMoveEndpoint(d) => {
            match &mut model.openapi_editor {
                Some(ed) => {
                    ed.move_endpoint(d);
                },
                None => {},
            }
            None
        },
        Msg::OaEdScrollPreview(d) => {
            match &mut model.openapi_editor {
                Some(ed) => {
                    ed.scroll_preview(d);
                },
                None => {},
            }
            None
        },
        Msg::OaEdStartAddEndpoint => {
            match &mut model.openapi_editor {
                Some(ed) => {
                    ed.start_add_endpoint();
                },
                None => {},
            }
            None
        },
        Msg::OaEdDeleteEndpoint => {
            match &mut model.openapi_editor {
                Some(ed) => {
                    ed.delete_endpoint();
                },
                None => {},
            }
            None
        },
        Msg::OaEdTogglePane => {
            match &mut model.openapi_editor {
                Some(ed) => {
                    ed.toggle_pane();
                },
                None => {},
            }
            None
        },
        Msg::OaEdMoveSchema(d) => {
            match &mut model.openapi_editor {
                Some(ed) => {
                    ed.move_schema(d);
                },
                None => {},
            }
            None
        },
        Msg::OaEdStartAddSchema => {
            match &mut model.openapi_editor {
                Some(ed) => {
                    ed.start_schema_prompt(0);
                },
                None => {},
            }
            None
        },
        Msg::OaEdDeleteSchema => {
            match &mut model.openapi_editor {
                Some(ed) => {
                    ed.delete_schema();
                },
                None => {},
            }
            None
        },
        Msg::OaEdStartRenameSchema => {
            match &mut model.openapi_editor {
                Some(ed) => {
                    ed.start_rename_schema();
                },
                None => {},
            }
            None
        },
        Msg::OaEdStartAddProp => {
            match &mut model.openapi_editor {
                Some(ed) => {
                    ed.start_add_prop();
                },
                None => {},
            }
            None
        },
        Msg::OaEdDeleteProp => {
            match &mut model.openapi_editor {
                Some(ed) => {
                    ed.delete_prop();
                },
                None => {},
            }
            None
        },
        Msg::OaEdTogglePropRequired => {
            match &mut model.openapi_editor {
                Some(ed) => {
                    ed.tweak_prop(0, 0);
                },
                None => {},
            }
            None
        },
        Msg::OaEdCyclePropType(d) => {
            match &mut model.openapi_editor {
                Some(ed) => {
                    ed.tweak_prop(2, d);
                },
                None => {},
            }
            None
        },
        Msg::OaEdTogglePropNullable => {
            match &mut model.openapi_editor {
                Some(ed) => {
                    ed.tweak_prop(1, 0);
                },
                None => {},
            }
            None
        },
        Msg::OaEdCyclePropFormat(d) => {
            match &mut model.openapi_editor {
                Some(ed) => {
                    ed.tweak_prop(3, d);
                },
                None => {},
            }
            None
        },
        Msg::OaEdStartRenameProp => {
            match &mut model.openapi_editor {
                Some(ed) => {
                    ed.start_rename_prop();
                },
                None => {},
            }
            None
        },
        Msg::OaEdStartEditPropMin => {
            match &mut model.openapi_editor {
                Some(ed) => {
                    ed.start_schema_prompt(3);
                },
                None => {},
            }
            None
        },
        Msg::OaEdStartEditPropMax => {
            match &mut model.openapi_editor {
                Some(ed) => {
                    ed.start_schema_prompt(4);
                },
                None => {},
            }
            None
        },
        _ => None,
    }
}

/// The messages of one half of the openapi editor's.
pub open spec fn is_oa_msg_2(msg: Msg) -> bool {
    match msg {
        Msg::OaEdStartEditPropPattern | Msg::OaEdStartEditPropEnum | Msg::OaEdMoveProp(_) | Msg::OaEdCycleMethod(_) | Msg::OaEdCycleReqBody(_) | Msg::OaEdCycleRespBody(_) | Msg::OaEdCycleStatus(_) | Msg::OaEdCycleReqContentType(_) | Msg::OaEdStartEditPath | Msg::OaEdStartEditTitle | Msg::OaEdStartEditVersion | Msg::OaEdStartEditBaseUrl | Msg::OaEdInputChar(_) | Msg::OaEdBackspace | Msg::OaEdConfirm | Msg::OpenOpenApiEditor | Msg::OaEdCancel | Msg::OaEdSave => true,
        _ => false,
    }
}

fn is_oa_msg_2_exec(msg: &Msg) -> (r: bool)
    ensures
        r == is_oa_msg_2(*msg),
{
    match msg {
        Msg::OaEdStartEditPropPattern | Msg::OaEdStartEditPropEnum | Msg::OaEdMoveProp(_) | Msg::OaEdCycleMethod(_) | Msg::OaEdCycleReqBody(_) | Msg::OaEdCycleRespBody(_) | Msg::OaEdCycleStatus(_) | Msg::OaEdCycleReqContentType(_) | Msg::OaEdStartEditPath | Msg::OaEdStartEditTitle | Msg::OaEdStartEditVersion | Msg::OaEdStartEditBaseUrl | Msg::OaEdInputChar(_) | Msg::OaEdBackspace | Msg::OaEdConfirm | Msg::OpenOpenApiEditor | Msg::OaEdCancel | Msg::OaEdSave => true,
        _ => false,
    }
}

fn update_oa_2(model: &mut Model, msg: Msg) -> (r: Option<Cmd>)
    requires
        is_oa_msg_2(msg),
        old(model).wf(),
    ensures
        oa_step(*old(model), msg, *final(model), r),
        final(model).wf(),
{
    match msg {
        Msg::OaEdStartEditPropPattern => {
            match &mut model.openapi_editor {
                Some(ed) => {
                    ed.start_schema_prompt(1);
                },
                None => {},
            }
            None
        },
        Msg::OaEdStartEditPropEnum => {
            match &mut model.openapi_editor {
                Some(ed) => {
                    ed.start_schema_prompt(2);
                },
                None => {},
            }
            None
        },
        Msg::OaEdMoveProp(d) => {
            match &mut model.openapi_editor {
                Some(ed) => {
                    ed.move_prop(d);
                },
                None => {},
            }
            None
        },
        Msg::OaEdCycleMethod(d) => {
            match &mut model.openapi_editor {
                Some(ed) => {
                    ed.tweak_endpoint(0, d);
                },
                None => {},
            }
            None
        },
        Msg::OaEdCycleReqBody(d) => {
            match &mut model.openapi_editor {
                Some(ed) => {
                    ed.tweak_endpoint(1, d);
                },
                None => {},
            }
            None
        },
        Msg::OaEdCycleRespBody(d) => {
            match &mut model.openapi_editor {
                Some(ed) => {
                    ed.tweak_endpoint(2, d);
                },
                None => {},
            }
            None
        },
        Msg::OaEdCycleStatus(d) => {
            match &mut model.openapi_editor {
                Some(ed) => {
                    ed.tweak_endpoint(3, d);
                },
                None => {},
            }
            None
        },
        Msg::OaEdCycleReqContentType(d) => {
            match &mut model.openapi_editor {
                Some(ed) => {
                    ed.tweak_endpoint(4, d);
                },
                None => {},
            }
            None
        },
        Msg::OaEdStartEditPath => {
            match &mut model.openapi_editor {
                Some(ed) => {
                    ed.start_edit_path();
                },
                None => {},
            }
            None
        },
        Msg::OaEdStartEditTitle => {
            match &mut model.openapi_editor {
                Some(ed) => {
                    ed.start_edit_info(0);
                },
                None => {},
            }
            None
        },
        Msg::OaEdStartEditVersion => {
            match &mut model.openapi_editor {
                Some(ed) => {
                    ed.start_edit_info(1);
                },
                None => {},
            }
            None
        },
        Msg::OaEdStartEditBaseUrl => {
            match &mut model.openapi_editor {
                Some(ed) => {
                    ed.start_edit_info(2);
                },
                None => {},
            }
            None
        },
        Msg::OaEdInputChar(c) => {
            match &mut model.openapi_editor {
                Some(ed) => {
                    ed.input_char(c);
                },
                None => {},
            }
            None
        },
        Msg::OaEdBackspace => {
            match &mut model.openapi_editor {
                Some(ed) => {
                    ed.backspace();
                },
                None => {},
            }
            None
        },
        Msg::OaEdConfirm => {
            match &mut model.openapi_editor {
                Some(ed) => {
                    ed.confirm();
                },
                None => {},
            }
            None
        },
        Msg::OpenOpenApiEditor => {
            match &model.form {
                Some(form) => {
                    if form.cursor < form.fields.len() && form.fields[form.cursor].kind == Some(FieldKind::OpenApi) {
                        let (title, version, base_url, endpoints) = parse_openapi_contract(
                            form.fields[form.cursor].value.as_str(),
                        );
                        let ed = OpenApiEditorState {
                            form_field_index: form.cursor,
                            title,
                            version,
                            base_url,
                            endpoints,
                            endpoint_cursor: 0,
                            schemas: Vec::new(),
                            schema_cursor: 0,
                            prop_cursor: 0,
                            preview_scroll: 0,
                            mode: OpenApiEditorMode::Browse,
                        };
                        model.openapi_editor = Some(ed);
                    }
                },
                None => {},
            }
            None
        },
        Msg::OaEdCancel => {
            model.openapi_editor = None;
            None
        },
        Msg::OaEdSave => {
            let taken = model.openapi_editor.take();
            match taken {
                Some(ed) => {
                    let text = render_openapi_contract(
                        ed.title.as_str(),
                        ed.version.as_str(),
                        ed.base_url.as_str(),
                        &ed.endpoints,
                        &ed.schemas,
                    );
                    save_into_form(model, ed.form_field_index, text);
                },
                None => {},
            }
            None
        },
        _ => None,
    }
}

/// `update` for the messages of the openapi editor.
fn update_oa(model: &mut Model, msg: Msg) -> (r: Option<Cmd>)
    requires
        is_oa_msg(msg),
        old(model).wf(),
    ensures
        oa_step(*old(model), msg, *final(model), r),
        final(model).wf(),
{
    if is_oa_msg_1_exec(&msg) {
        update_oa_1(model, msg)
    } else {
        update_oa_2(model, msg)
    }
}

fn is_app_msg_exec(msg: &Msg) -> (r: bool)
    ensures
        r == is_app_msg(*msg),
{
    match msg {
        Msg::Quit | Msg::GoScreen(_) | Msg::NextTab | Msg::PrevTab | Msg::ShowHelp
        | Msg::PalToggle | Msg::PalInput(_) | Msg::PalBackspace | Msg::PalAccept | Msg::PalMove(_)
        | Msg::DismissToast | Msg::AckConfirm | Msg::CancelConfirm | Msg::SetTemplates(_)
        | Msg::SetTasks(_) | Msg::ToastInfo(_) | Msg::ToastWarn(_) | Msg::ToastError(_)
        | Msg::TemplateCursor(_) | Msg::OpenCreateTemplate | Msg::OpenEditTemplate(_)
        | Msg::DeleteTemplate(_) | Msg::TaskCursor(_) | Msg::TaskPromptScroll(_)
        | Msg::ToggleTaskSelection(_) | Msg::OpenCreateTask | Msg::OpenCreateTaskWith(_)
        | Msg::OpenEditTask(_) | Msg::OpenSaveTaskPrompt(_) | Msg::PickerMove(_)
        | Msg::PickerAccept | Msg::PickerCancel | Msg::DeleteTask(_)
        | Msg::ConfirmDeleteTemplate(_) | Msg::ConfirmDeleteTask(_) => true,
        _ => false,
    }
}

fn is_form_msg_exec(msg: &Msg) -> (r: bool)
    ensures
        r == is_form_msg(*msg),
{
    match msg {
        Msg::FormInputChar(_) | Msg::FormBackspace | Msg::FormNext | Msg::FormPrev
        | Msg::FormCaretLeft | Msg::FormCaretRight | Msg::FormCaretUp | Msg::FormCaretDown
        | Msg::FormCaretHome | Msg::FormCaretEnd | Msg::FormSubmit | Msg::FormCancel => true,
        _ => false,
    }
}

fn is_seq_msg_exec(msg: &Msg) -> (r: bool)
    ensures
        r == is_seq_msg(*msg),
{
    match msg {
        Msg::SeqEdMove(_) | Msg::SeqEdMoveParticipant(_) | Msg::SeqEdMoveDiagram(_) | Msg::SeqEdInputChar(_) | Msg::SeqEdBackspace | Msg::SeqEdStartAddParticipant | Msg::SeqEdStartAddMessage | Msg::SeqEdToggleDashed | Msg::SeqEdCycleFrom(_) | Msg::SeqEdCycleTo(_) | Msg::SeqEdStartEditEdgeContext | Msg::SeqEdConfirm | Msg::SeqEdDeleteEvent | Msg::SeqEdDeleteParticipant | Msg::SeqEdStartAddDiagram | Msg::SeqEdStartRenameDiagram | Msg::SeqEdDeleteDiagram | Msg::OpenSequenceEditor | Msg::SeqEdCancel | Msg::SeqEdSave => true,
        _ => false,
    }
}

fn is_code_msg_exec(msg: &Msg) -> (r: bool)
    ensures
        r == is_code_msg(*msg),
{
    match msg {
        Msg::CodeEdMoveBlock(_) | Msg::CodeEdInputChar(_) | Msg::CodeEdBackspace | Msg::CodeEdConfirm | Msg::CodeEdStartAddBlock | Msg::CodeEdStartRenameBlock | Msg::CodeEdStartEditLanguage | Msg::CodeEdStartEditCode | Msg::CodeEdDeleteBlock | Msg::CodeEdCaretLeft | Msg::CodeEdCaretRight | Msg::CodeEdCaretUp | Msg::CodeEdCaretDown | Msg::CodeEdCaretHome | Msg::CodeEdCaretEnd | Msg::OpenCodeEditor | Msg::CodeEdCancel | Msg::CodeEdSave => true,
        _ => false,
    }
}

fn is_gh_msg_exec(msg: &Msg) -> (r: bool)
    ensures
        r == is_gh_msg(*msg),
{
    match msg {
        Msg::GhEdMoveScenario(_) | Msg::GhEdMoveFeature(_) | Msg::GhEdInputChar(_) | Msg::GhEdBackspace | Msg::GhEdStartAddScenario | Msg::GhEdStartRenameScenario | Msg::GhEdStartEditFeature | Msg::GhEdStartEditBackground | Msg::GhEdStartEditSteps | Msg::GhEdDeleteScenario | Msg::GhEdStartAddFeature | Msg::GhEdStartRenameFeature | Msg::GhEdDeleteFeature | Msg::GhEdCaretLeft | Msg::GhEdCaretRight | Msg::GhEdCaretUp | Msg::GhEdCaretDown | Msg::GhEdCaretHome | Msg::GhEdCaretEnd | Msg::OpenGherkinEditor | Msg::GhEdCancel | Msg::GhEdSave | Msg::GhEdConfirm => true,
        _ => false,
    }
}

fn is_oa_msg_exec(msg: &Msg) -> (r: bool)
    ensures
        r == is_oa_msg(*msg),
{
    match msg {
        Msg::OaEdMoveEndpoint(_) | Msg::OaEdScrollPreview(_) | Msg::OaEdStartAddEndpoint | Msg::OaEdDeleteEndpoint | Msg::OaEdTogglePane | Msg::OaEdMoveSchema(_) | Msg::OaEdStartAddSchema | Msg::OaEdDeleteSchema | Msg::OaEdStartRenameSchema | Msg::OaEdStartAddProp | Msg::OaEdDeleteProp | Msg::OaEdTogglePropRequired | Msg::OaEdCyclePropType(_) | Msg::OaEdTogglePropNullable | Msg::OaEdCyclePropFormat(_) | Msg::OaEdStartRenameProp | Msg::OaEdStartEditPropMin | Msg::OaEdStartEditPropMax | Msg::OaEdStartEditPropPattern | Msg::OaEdStartEditPropEnum | Msg::OaEdMoveProp(_) | Msg::OaEdCycleMethod(_) | Msg::OaEdCycleReqBody(_) | Msg::OaEdCycleRespBody(_) | Msg::OaEdCycleStatus(_) | Msg::OaEdCycleReqContentType(_) | Msg::OaEdStartEditPath | Msg::OaEdStartEditTitle | Msg::OaEdStartEditVersion | Msg::OaEdStartEditBaseUrl | Msg::OaEdInputChar(_) | Msg::OaEdBackspace | Msg::OaEdConfirm | Msg::OpenOpenApiEditor | Msg::OaEdCancel | Msg::OaEdSave => true,
        _ => false,
    }
}

/// The pure transition of the interface: the state after `msg`, and the
/// work to do outside, if any. Carets stay on character boundaries.
pub fn update(model: &mut Model, msg: Msg) -> (r: Option<Cmd>)
    requires
        old(model).wf(),
    ensures
        stepped(*old(model), msg, *final(model), r),
        final(model).wf(),
{
    if is_app_msg_exec(&msg) {
        update_app(model, msg)
    } else if is_form_msg_exec(&msg) {
        update_form(model, msg)
    } else if is_seq_msg_exec(&msg) {
        update_seq(model, msg)
    } else if is_code_msg_exec(&msg) {
        update_code(model, msg)
    } else if is_gh_msg_exec(&msg) {
        update_gh(model, msg)
    } else {
        update_oa(model, msg)
    }
}

/// Deleting a template or a task asks first: the request changes nothing
/// but the question it opens and runs nothing, and the question's yes
/// sends the message that, applied, runs the deletion of exactly that
/// template or task and changes nothing else.
pub proof fn lemma_delete_asks_first(
    a: Model,
    msg: Msg,
    b: Model,
    cmd: Option<Cmd>,
    c: Model,
    cmd2: Option<Cmd>,
)
    requires
        msg is DeleteTemplate || msg is DeleteTask,
        stepped(a, msg, b, cmd),
        b.confirm is Some,
        stepped(b, *b.confirm->0.accept, c, cmd2),
    ensures
        cmd is None,
        b == (Model { confirm: b.confirm, ..a }),
        c == b,
        msg matches Msg::DeleteTemplate(id) ==> cmd2 == Some(Cmd::DeleteTemplate(id)),
        msg matches Msg::DeleteTask(id) ==> cmd2 == Some(Cmd::DeleteTask(id)),
{
}

/// In the open palette, Backspace undoes a typed character: typing `c`
/// adds it to the end of the query, and a Backspace right after gives
/// back the query as it was, with nothing else changed and no command.
pub proof fn lemma_palette_type_then_erase(
    a: Model,
    c: char,
    b: Model,
    cmd: Option<Cmd>,
    d: Model,
    cmd2: Option<Cmd>,
)
    requires
        a.palette_open,
        stepped(a, Msg::PalInput(c), b, cmd),
        stepped(b, Msg::PalBackspace, d, cmd2),
    ensures
        cmd is None && cmd2 is None,
        b.palette_input@ == a.palette_input@.push(c),
        d.palette_input@ == a.palette_input@,
        d == (Model { palette_input: d.palette_input, ..a }),
{
    assert(a.palette_input@.push(c).drop_last() =~= a.palette_input@);
}

/// The tabs go round in the order templates, tasks, info: from a tab
/// screen, the next tab and then the previous one come back to it, and so
/// does taking the next tab three times.
pub proof fn lemma_tabs_cycle(
    a: Model,
    b: Model,
    c: Model,
    d: Model,
    e: Model,
    c1: Option<Cmd>,
    c2: Option<Cmd>,
    c3: Option<Cmd>,
    c4: Option<Cmd>,
)
    requires
        a.screen != Screen::Help,
        stepped(a, Msg::NextTab, b, c1),
        stepped(b, Msg::PrevTab, c, c2),
        stepped(b, Msg::NextTab, d, c3),
        stepped(d, Msg::NextTab, e, c4),
    ensures
        a.screen == Screen::Templates ==> b.screen == Screen::Tasks,
        a.screen == Screen::Tasks ==> b.screen == Screen::Info,
        a.screen == Screen::Info ==> b.screen == Screen::Templates,
        c.screen == a.screen,
        e.screen == a.screen,
{
}

} // verus!
