use lattice::form::FormField;
use lattice::keybind::{translate, KeyCode, KeyEvent};
use lattice::model::{Model, Msg, Picker, PickerItem};
use lattice::palette::{candidates, commands, resolve};
use lattice::ui::{FormState, FormSubmit, Screen};

fn form_with_cursor(multiline_flags: &[bool], cursor: usize) -> Model {
    let mut m = Model::new();
    m.form = Some(FormState {
        title: "t".into(),
        fields: multiline_flags
            .iter()
            .enumerate()
            .map(|(i, &ml)| FormField::plain(&format!("f{i}"), "", false, ml))
            .collect(),
        cursor,
        submit: FormSubmit::CreateTemplate,
    });
    m
}

fn key(code: KeyCode) -> KeyEvent {
    KeyEvent::plain(code)
}

fn ctrl(code: KeyCode) -> KeyEvent {
    KeyEvent::with_ctrl(code)
}

fn alt(code: KeyCode) -> KeyEvent {
    KeyEvent::with_alt(code)
}

#[test]
fn plain_enter_submits_on_single_line_field() {
    let m = form_with_cursor(&[false, false], 0);
    assert!(matches!(translate(&m, key(KeyCode::Enter)), Some(Msg::FormSubmit)));
}

#[test]
fn plain_enter_inserts_newline_on_multiline_field() {
    let m = form_with_cursor(&[false, true], 1);
    assert!(matches!(translate(&m, key(KeyCode::Enter)), Some(Msg::FormInputChar('\n'))));
}

#[test]
fn ctrl_s_submits_everywhere() {
    let m = form_with_cursor(&[true], 0);
    assert!(matches!(translate(&m, ctrl(KeyCode::Char('s'))), Some(Msg::FormSubmit)));
}

#[test]
fn f2_submits() {
    let m = form_with_cursor(&[true], 0);
    assert!(matches!(translate(&m, key(KeyCode::F(2))), Some(Msg::FormSubmit)));
}

#[test]
fn ctrl_enter_still_submits_on_kitty_protocol() {
    let m = form_with_cursor(&[true], 0);
    assert!(matches!(translate(&m, ctrl(KeyCode::Enter)), Some(Msg::FormSubmit)));
}

#[test]
fn alt_enter_submits_on_multiline_field() {
    let m = form_with_cursor(&[false, true], 1);
    assert!(matches!(translate(&m, alt(KeyCode::Enter)), Some(Msg::FormSubmit)));
}

#[test]
fn alt_enter_submits_on_single_line_field_too() {
    let m = form_with_cursor(&[false, true], 0);
    assert!(matches!(translate(&m, alt(KeyCode::Enter)), Some(Msg::FormSubmit)));
}

#[test]
fn arrow_down_moves_to_next_field_on_single_line() {
    let m = form_with_cursor(&[false, true, false], 0);
    assert!(matches!(translate(&m, key(KeyCode::Down)), Some(Msg::FormNext)));
}

#[test]
fn arrow_up_moves_to_prev_field_on_single_line() {
    let m = form_with_cursor(&[false, true, false], 2);
    assert!(matches!(translate(&m, key(KeyCode::Up)), Some(Msg::FormPrev)));
}

#[test]
fn arrow_down_moves_caret_within_multiline_field() {
    let m = form_with_cursor(&[false, true, false], 1);
    assert!(matches!(translate(&m, key(KeyCode::Down)), Some(Msg::FormCaretDown)));
}

#[test]
fn arrow_up_moves_caret_within_multiline_field() {
    let m = form_with_cursor(&[false, true, false], 1);
    assert!(matches!(translate(&m, key(KeyCode::Up)), Some(Msg::FormCaretUp)));
}

#[test]
fn tab_still_switches_fields_from_multiline() {
    let m = form_with_cursor(&[false, true, false], 1);
    assert!(matches!(translate(&m, key(KeyCode::Tab)), Some(Msg::FormNext)));
    assert!(matches!(translate(&m, key(KeyCode::BackTab)), Some(Msg::FormPrev)));
}

#[test]
fn horizontal_arrows_move_caret() {
    let m = form_with_cursor(&[false, true, false], 1);
    assert!(matches!(translate(&m, key(KeyCode::Left)), Some(Msg::FormCaretLeft)));
    assert!(matches!(translate(&m, key(KeyCode::Right)), Some(Msg::FormCaretRight)));
}

fn model_with_picker() -> Model {
    let mut m = Model::new();
    m.picker = Some(Picker {
        title: "Pick".into(),
        items: vec![
            PickerItem { label: "alpha".into(), accept: Msg::Quit },
            PickerItem { label: "beta".into(), accept: Msg::Quit },
        ],
        cursor: 0,
    });
    m
}

#[test]
fn picker_routes_arrows_and_enter() {
    let m = model_with_picker();
    assert!(matches!(translate(&m, key(KeyCode::Down)), Some(Msg::PickerMove(1))));
    assert!(matches!(translate(&m, key(KeyCode::Up)), Some(Msg::PickerMove(-1))));
    assert!(matches!(translate(&m, key(KeyCode::Enter)), Some(Msg::PickerAccept)));
    assert!(matches!(translate(&m, key(KeyCode::Esc)), Some(Msg::PickerCancel)));
}

#[test]
fn picker_blocks_global_tab() {
    let m = model_with_picker();
    assert!(translate(&m, key(KeyCode::Tab)).is_none());
    assert!(translate(&m, key(KeyCode::Char('1'))).is_none());
}

#[test]
fn empty_query_returns_all() {
    assert_eq!(candidates("").len(), commands().len());
}

#[test]
fn filter_by_substring_case_insensitive() {
    let r = candidates("QUIT");
    assert_eq!(r.len(), 1);
    assert_eq!(r[0].id, "quit");
}

#[test]
fn resolve_uses_cursor() {
    let msg = resolve("go", 0);
    assert!(matches!(msg, Some(Msg::GoScreen(Screen::Templates))));
}

// ---------------------------------------------------------------------

#[test]
fn help_screen_returns_on_any_key() {
    let mut m = Model::new();
    m.screen = Screen::Help;
    m.prev_screen = Screen::Tasks;
    assert!(matches!(translate(&m, key(KeyCode::Char('x'))), Some(Msg::GoScreen(Screen::Tasks))));
}

#[test]
fn global_keys_quit_and_palette() {
    let m = Model::new();
    assert!(matches!(translate(&m, key(KeyCode::Char('q'))), Some(Msg::Quit)));
    assert!(matches!(translate(&m, ctrl(KeyCode::Char('c'))), Some(Msg::Quit)));
    assert!(matches!(translate(&m, ctrl(KeyCode::Char('k'))), Some(Msg::PalToggle)));
    assert!(matches!(translate(&m, key(KeyCode::Char('2'))), Some(Msg::GoScreen(Screen::Tasks))));
    assert!(translate(&m, key(KeyCode::Esc)).is_none());
}

#[test]
fn tasks_screen_warns_without_a_task() {
    let mut m = Model::new();
    m.screen = Screen::Tasks;
    match translate(&m, key(KeyCode::Char('w'))) {
        Some(Msg::ToastWarn(t)) => assert_eq!(t, "no task selected"),
        _ => panic!("expected a warning"),
    }
}

#[test]
fn palette_last_candidate_when_cursor_past_end() {
    assert!(matches!(resolve("go", 99), Some(Msg::GoScreen(Screen::Info))));
    assert!(resolve("zzz", 0).is_none());
    let r = candidates("new");
    assert_eq!(r.len(), 2);
    assert_eq!(r[0].id, "new-template");
}
