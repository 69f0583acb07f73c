//! Keys to messages: what each key does, overlays first (help, palette,
//! confirmation, the four editors, picker, form), then the global keys,
//! then the keys of the screen on show.

use vstd::prelude::*;
use crate::code_blocks::CodeEditorMode;
use crate::fields::FieldKind;
use crate::gherkin::GherkinEditorMode;
use crate::model::{Cmd, Model, Msg, stepped};
use crate::openapi::OpenApiEditorMode;
use crate::sequence::SequenceEditorMode;
use crate::ui::Screen;

verus! {

/// A key of the keyboard.
#[derive(Clone, Copy, Debug, PartialEq, Eq, Structural)]
pub enum KeyCode {
    Char(char),
    Enter,
    Esc,
    Tab,
    BackTab,
    Backspace,
    Left,
    Right,
    Up,
    Down,
    Home,
    End,
    PageUp,
    PageDown,
    Delete,
    F(u8),
    /// Any other key.
    Other,
}

/// A key press with its modifiers; `meta` stands for the super, hyper
/// and meta modifiers.
#[derive(Clone, Copy, Debug, PartialEq, Eq, Structural)]
pub struct KeyEvent {
    pub code: KeyCode,
    pub ctrl: bool,
    pub alt: bool,
    pub shift: bool,
    pub meta: bool,
}

impl KeyEvent {
    /// A key press without modifiers.
    pub fn plain(code: KeyCode) -> (r: KeyEvent)
        ensures
            r == (KeyEvent { code, ctrl: false, alt: false, shift: false, meta: false }),
    {
        KeyEvent { code, ctrl: false, alt: false, shift: false, meta: false }
    }

    /// A key press with Control held.
    pub fn with_ctrl(code: KeyCode) -> (r: KeyEvent)
        ensures
            r == (KeyEvent { code, ctrl: true, alt: false, shift: false, meta: false }),
    {
        KeyEvent { code, ctrl: true, alt: false, shift: false, meta: false }
    }

    /// A key press with Alt held.
    pub fn with_alt(code: KeyCode) -> (r: KeyEvent)
        ensures
            r == (KeyEvent { code, ctrl: false, alt: true, shift: false, meta: false }),
    {
        KeyEvent { code, ctrl: false, alt: true, shift: false, meta: false }
    }
}

/// Control and nothing else is held.
pub open spec fn only_ctrl(k: KeyEvent) -> bool {
    k.ctrl && !k.alt && !k.shift && !k.meta
}

/// The palette's keys.
pub open spec fn palette_key(k: KeyEvent) -> Option<Msg> {
    match k.code {
        KeyCode::Esc => Some(Msg::PalToggle),
        KeyCode::Enter => Some(Msg::PalAccept),
        KeyCode::Backspace => Some(Msg::PalBackspace),
        KeyCode::Up => Some(Msg::PalMove(-1isize)),
        KeyCode::Down => Some(Msg::PalMove(1isize)),
        KeyCode::Char(c) => Some(Msg::PalInput(c)),
        _ => None,
    }
}

/// The keys of a yes/no question.
pub open spec fn confirm_key(k: KeyEvent) -> Option<Msg> {
    match k.code {
        KeyCode::Enter => Some(Msg::AckConfirm),
        KeyCode::Char(c) => if c == 'y' || c == 'Y' {
            Some(Msg::AckConfirm)
        } else if c == 'n' || c == 'N' {
            Some(Msg::CancelConfirm)
        } else {
            None
        },
        KeyCode::Esc => Some(Msg::CancelConfirm),
        _ => None,
    }
}

/// The sequence-gram editor's keys in mode `mode`.
pub open spec fn seq_key(mode: SequenceEditorMode, k: KeyEvent) -> Option<Msg> {
    match k.code {
        KeyCode::Esc => Some(Msg::SeqEdCancel),
        KeyCode::F(2) => Some(Msg::SeqEdSave),
        KeyCode::Backspace => Some(Msg::SeqEdBackspace),
        KeyCode::Enter => if (mode is EditEdgeContext) && (k.alt || k.ctrl) {
            Some(Msg::SeqEdInputChar('\n'))
        } else {
            Some(Msg::SeqEdConfirm)
        },
        _ => if !(mode is Browse) {
            match k.code {
                KeyCode::Left => if k.ctrl {
                    Some(Msg::SeqEdCycleFrom(-1isize))
                } else {
                    Some(Msg::SeqEdCycleTo(-1isize))
                },
                KeyCode::Right => if k.ctrl {
                    Some(Msg::SeqEdCycleFrom(1isize))
                } else {
                    Some(Msg::SeqEdCycleTo(1isize))
                },
                KeyCode::Char(c) => Some(Msg::SeqEdInputChar(c)),
                _ => None,
            }
        } else {
            match k.code {
                KeyCode::Up => Some(Msg::SeqEdMove(-1isize)),
                KeyCode::Down => Some(Msg::SeqEdMove(1isize)),
                KeyCode::Left => Some(Msg::SeqEdMoveParticipant(-1isize)),
                KeyCode::Right => Some(Msg::SeqEdMoveParticipant(1isize)),
                KeyCode::Tab => Some(Msg::SeqEdMoveDiagram(1isize)),
                KeyCode::Char(c) => if c == 'p' {
                    Some(Msg::SeqEdStartAddParticipant)
                } else if c == 'm' {
                    Some(Msg::SeqEdStartAddMessage)
                } else if c == 'c' {
                    Some(Msg::SeqEdStartEditEdgeContext)
                } else if c == 'x' {
                    Some(Msg::SeqEdDeleteEvent)
                } else if c == 'X' {
                    Some(Msg::SeqEdDeleteParticipant)
                } else if c == 'n' {
                    Some(Msg::SeqEdStartAddDiagram)
                } else if c == 'r' {
                    Some(Msg::SeqEdStartRenameDiagram)
                } else if c == 'D' {
                    Some(Msg::SeqEdDeleteDiagram)
                } else {
                    None
                },
                _ => None,
            }
        },
    }
}

/// The caret keys of a multi-line editor, sent as the given messages.
pub open spec fn caret_key(
    k: KeyEvent,
    left: Msg,
    right: Msg,
    up: Msg,
    down: Msg,
    home: Msg,
    end: Msg,
) -> Option<Msg> {
    match k.code {
        KeyCode::Left => Some(left),
        KeyCode::Right => Some(right),
        KeyCode::Up => Some(up),
        KeyCode::Down => Some(down),
        KeyCode::Home => Some(home),
        KeyCode::End => Some(end),
        _ => None,
    }
}

/// The code-blocks editor's keys in mode `mode`.
pub open spec fn code_key(mode: CodeEditorMode, k: KeyEvent) -> Option<Msg> {
    match k.code {
        KeyCode::Esc => Some(Msg::CodeEdCancel),
        KeyCode::F(2) => Some(Msg::CodeEdSave),
        KeyCode::Backspace => Some(Msg::CodeEdBackspace),
        KeyCode::Enter => if (mode is EditCode) && !(k.alt || k.ctrl) {
            Some(Msg::CodeEdInputChar('\n'))
        } else {
            Some(Msg::CodeEdConfirm)
        },
        KeyCode::Tab => if mode is Browse {
            Some(Msg::CodeEdMoveBlock(1isize))
        } else {
            Some(Msg::CodeEdInputChar('\t'))
        },
        KeyCode::Char(c) => if mode is Browse {
            if c == 'n' {
                Some(Msg::CodeEdStartAddBlock)
            } else if c == 'r' {
                Some(Msg::CodeEdStartRenameBlock)
            } else if c == 'l' {
                Some(Msg::CodeEdStartEditLanguage)
            } else if c == 'e' {
                Some(Msg::CodeEdStartEditCode)
            } else if c == 'D' {
                Some(Msg::CodeEdDeleteBlock)
            } else {
                None
            }
        } else {
            Some(Msg::CodeEdInputChar(c))
        },
        _ => if mode is Browse {
            match k.code {
                KeyCode::Up => Some(Msg::CodeEdMoveBlock(-1isize)),
                KeyCode::Down => Some(Msg::CodeEdMoveBlock(1isize)),
                _ => None,
            }
        } else {
            caret_key(
                k,
                Msg::CodeEdCaretLeft,
                Msg::CodeEdCaretRight,
                Msg::CodeEdCaretUp,
                Msg::CodeEdCaretDown,
                Msg::CodeEdCaretHome,
                Msg::CodeEdCaretEnd,
            )
        },
    }
}

/// The Gherkin editor's keys in mode `mode`.
pub open spec fn gh_key(mode: GherkinEditorMode, k: KeyEvent) -> Option<Msg> {
    let multiline = (mode is EditBackground) || (mode is EditSteps);
    match k.code {
        KeyCode::Esc => Some(Msg::GhEdCancel),
        KeyCode::F(2) => Some(Msg::GhEdSave),
        KeyCode::Backspace => Some(Msg::GhEdBackspace),
        KeyCode::Enter => if multiline && !(k.alt || k.ctrl) {
            Some(Msg::GhEdInputChar('\n'))
        } else {
            Some(Msg::GhEdConfirm)
        },
        KeyCode::Tab => if mode is Browse {
            Some(Msg::GhEdMoveFeature(1isize))
        } else {
            Some(Msg::GhEdInputChar('\t'))
        },
        KeyCode::Char(c) => if mode is Browse {
            if c == 'n' {
                Some(Msg::GhEdStartAddScenario)
            } else if c == 'r' {
                Some(Msg::GhEdStartRenameScenario)
            } else if c == 'f' {
                Some(Msg::GhEdStartEditFeature)
            } else if c == 'b' {
                Some(Msg::GhEdStartEditBackground)
            } else if c == 'e' {
                Some(Msg::GhEdStartEditSteps)
            } else if c == 'N' {
                Some(Msg::GhEdStartAddFeature)
            } else if c == 'R' {
                Some(Msg::GhEdStartRenameFeature)
            } else if c == 'D' {
                Some(Msg::GhEdDeleteScenario)
            } else if c == 'X' {
                Some(Msg::GhEdDeleteFeature)
            } else {
                None
            }
        } else {
            Some(Msg::GhEdInputChar(c))
        },
        _ => if mode is Browse {
            match k.code {
                KeyCode::Up => Some(Msg::GhEdMoveScenario(-1isize)),
                KeyCode::Down => Some(Msg::GhEdMoveScenario(1isize)),
                _ => None,
            }
        } else {
            caret_key(
                k,
                Msg::GhEdCaretLeft,
                Msg::GhEdCaretRight,
                Msg::GhEdCaretUp,
                Msg::GhEdCaretDown,
                Msg::GhEdCaretHome,
                Msg::GhEdCaretEnd,
            )
        },
    }
}

/// The scrolling keys of the OpenAPI preview.
pub open spec fn oa_scroll_key(k: KeyEvent) -> Option<Msg> {
    match k.code {
        KeyCode::PageUp => Some(Msg::OaEdScrollPreview(-6isize)),
        KeyCode::PageDown => Some(Msg::OaEdScrollPreview(6isize)),
        KeyCode::Up => if k.ctrl {
            Some(Msg::OaEdScrollPreview(-1isize))
        } else {
            None
        },
        KeyCode::Down => if k.ctrl {
            Some(Msg::OaEdScrollPreview(1isize))
        } else {
            None
        },
        _ => None,
    }
}

/// The OpenAPI schemas pane's keys.
pub open spec fn oa_schemas_key(k: KeyEvent) -> Option<Msg> {
    if oa_scroll_key(k) is Some {
        oa_scroll_key(k)
    } else {
        match k.code {
            KeyCode::Tab => Some(Msg::OaEdMoveSchema(1isize)),
            KeyCode::Up => Some(Msg::OaEdMoveProp(-1isize)),
            KeyCode::Down => Some(Msg::OaEdMoveProp(1isize)),
            KeyCode::Char(c) => if c == 'g' {
                Some(Msg::OaEdTogglePane)
            } else if c == 'n' {
                Some(Msg::OaEdStartAddSchema)
            } else if c == 'D' {
                Some(Msg::OaEdDeleteSchema)
            } else if c == 'h' {
                Some(Msg::OaEdStartRenameSchema)
            } else if c == 'p' {
                Some(Msg::OaEdStartAddProp)
            } else if c == 'x' {
                Some(Msg::OaEdDeleteProp)
            } else if c == ' ' {
                Some(Msg::OaEdTogglePropRequired)
            } else if c == 't' {
                Some(Msg::OaEdCyclePropType(1isize))
            } else if c == 'a' {
                Some(Msg::OaEdTogglePropNullable)
            } else if c == 'f' {
                Some(Msg::OaEdCyclePropFormat(1isize))
            } else if c == 'r' {
                Some(Msg::OaEdStartRenameProp)
            } else if c == 'i' {
                Some(Msg::OaEdStartEditPropMin)
            } else if c == 'k' {
                Some(Msg::OaEdStartEditPropMax)
            } else if c == '/' {
                Some(Msg::OaEdStartEditPropPattern)
            } else if c == 'e' {
                Some(Msg::OaEdStartEditPropEnum)
            } else {
                None
            },
            _ => None,
        }
    }
}

/// The OpenAPI endpoints pane's keys.
pub open spec fn oa_browse_key(k: KeyEvent) -> Option<Msg> {
    if oa_scroll_key(k) is Some {
        oa_scroll_key(k)
    } else {
        match k.code {
            KeyCode::Tab => Some(Msg::OaEdMoveEndpoint(1isize)),
            KeyCode::Up => Some(Msg::OaEdMoveEndpoint(-1isize)),
            KeyCode::Down => Some(Msg::OaEdMoveEndpoint(1isize)),
            KeyCode::Char(c) => if c == 'g' {
                Some(Msg::OaEdTogglePane)
            } else if c == 'n' {
                Some(Msg::OaEdStartAddEndpoint)
            } else if c == 'D' {
                Some(Msg::OaEdDeleteEndpoint)
            } else if c == 'm' {
                Some(Msg::OaEdCycleMethod(1isize))
            } else if c == 's' {
                Some(Msg::OaEdCycleStatus(1isize))
            } else if c == 'c' {
                Some(Msg::OaEdCycleReqContentType(1isize))
            } else if c == 'r' {
                Some(Msg::OaEdCycleReqBody(1isize))
            } else if c == 'p' {
                Some(Msg::OaEdCycleRespBody(1isize))
            } else if c == 'u' {
                Some(Msg::OaEdStartEditPath)
            } else if c == 't' {
                Some(Msg::OaEdStartEditTitle)
            } else if c == 'v' {
                Some(Msg::OaEdStartEditVersion)
            } else if c == 'b' {
                Some(Msg::OaEdStartEditBaseUrl)
            } else {
                None
            },
            _ => None,
        }
    }
}

/// The OpenAPI editor's keys in mode `mode`.
pub open spec fn oa_key(mode: OpenApiEditorMode, k: KeyEvent) -> Option<Msg> {
    match k.code {
        KeyCode::Esc => Some(Msg::OaEdCancel),
        KeyCode::F(2) => Some(Msg::OaEdSave),
        KeyCode::Backspace => Some(Msg::OaEdBackspace),
        KeyCode::Enter => Some(Msg::OaEdConfirm),
        _ => match mode {
            OpenApiEditorMode::Browse => oa_browse_key(k),
            OpenApiEditorMode::Schemas => oa_schemas_key(k),
            _ => match k.code {
                KeyCode::Tab => Some(Msg::OaEdInputChar('\t')),
                KeyCode::Char(c) => Some(Msg::OaEdInputChar(c)),
                _ => None,
            },
        },
    }
}

/// The picker's keys.
pub open spec fn picker_key(k: KeyEvent) -> Option<Msg> {
    match k.code {
        KeyCode::Esc => Some(Msg::PickerCancel),
        KeyCode::Enter => Some(Msg::PickerAccept),
        KeyCode::Up => Some(Msg::PickerMove(-1isize)),
        KeyCode::Down => Some(Msg::PickerMove(1isize)),
        _ => None,
    }
}

/// A form's keys, with the focused row multi-line or not and of the
/// given kind. F2, Ctrl+S, Ctrl/Alt+Enter and Enter on a single-line
/// row submit; on a multi-line row the vertical arrows move the caret.
pub open spec fn form_key(multiline: bool, kind: Option<FieldKind>, k: KeyEvent) -> Option<Msg> {
    let submit = k.code == KeyCode::F(2) || (k.code == KeyCode::Char('s') && k.ctrl) || (k.code
        == KeyCode::Enter && (k.ctrl || k.alt)) || (k.code == KeyCode::Enter && !multiline);
    if submit {
        Some(Msg::FormSubmit)
    } else {
        match k.code {
            KeyCode::Esc => Some(Msg::FormCancel),
            KeyCode::Tab => Some(Msg::FormNext),
            KeyCode::BackTab => Some(Msg::FormPrev),
            KeyCode::F(n) => if n == 3 && kind == Some(FieldKind::SequenceGram) {
                Some(Msg::OpenSequenceEditor)
            } else if n == 4 && kind == Some(FieldKind::CodeBlocks) {
                Some(Msg::OpenCodeEditor)
            } else if n == 5 && kind == Some(FieldKind::Gherkin) {
                Some(Msg::OpenGherkinEditor)
            } else if n == 6 && kind == Some(FieldKind::OpenApi) {
                Some(Msg::OpenOpenApiEditor)
            } else {
                None
            },
            KeyCode::Up => if multiline {
                Some(Msg::FormCaretUp)
            } else {
                Some(Msg::FormPrev)
            },
            KeyCode::Down => if multiline {
                Some(Msg::FormCaretDown)
            } else {
                Some(Msg::FormNext)
            },
            KeyCode::Left => Some(Msg::FormCaretLeft),
            KeyCode::Right => Some(Msg::FormCaretRight),
            KeyCode::Home => Some(Msg::FormCaretHome),
            KeyCode::End => Some(Msg::FormCaretEnd),
            KeyCode::Backspace => Some(Msg::FormBackspace),
            KeyCode::Enter => Some(Msg::FormInputChar('\n')),
            KeyCode::Char(c) => Some(Msg::FormInputChar(c)),
            _ => None,
        }
    }
}

/// The global keys, when no overlay is open; none when the key is not
/// one of them.
pub open spec fn global_key(m: Model, k: KeyEvent) -> Option<Msg> {
    match k.code {
        KeyCode::Char(c) => if c == 'q' || (c == 'c' && only_ctrl(k)) {
            Some(Msg::Quit)
        } else if (c == 'k' && only_ctrl(k)) || c == '/' {
            Some(Msg::PalToggle)
        } else if c == '?' {
            Some(Msg::ShowHelp)
        } else if c == '1' {
            Some(Msg::GoScreen(Screen::Templates))
        } else if c == '2' {
            Some(Msg::GoScreen(Screen::Tasks))
        } else if c == '3' {
            Some(Msg::GoScreen(Screen::Info))
        } else {
            None
        },
        KeyCode::F(n) => if n == 1 {
            Some(Msg::ShowHelp)
        } else {
            None
        },
        KeyCode::Esc => if m.toasts@.len() > 0 {
            Some(Msg::DismissToast)
        } else {
            None
        },
        KeyCode::Tab => Some(Msg::NextTab),
        KeyCode::BackTab => Some(Msg::PrevTab),
        _ => None,
    }
}

/// The keys of the screen on show, as `r` relates them.
pub open spec fn screen_key(m: Model, k: KeyEvent, r: Option<Msg>) -> bool {
    match m.screen {
        Screen::Templates => r == match k.code {
            KeyCode::Up => Some(Msg::TemplateCursor(-1isize)),
            KeyCode::Down => Some(Msg::TemplateCursor(1isize)),
            KeyCode::Char(c) => if c == 'n' {
                Some(Msg::OpenCreateTemplate)
            } else if c == 'e' {
                if m.template_cursor < m.templates@.len() {
                    Some(Msg::OpenEditTemplate(m.templates@[m.template_cursor as int].id))
                } else {
                    None
                }
            } else if c == 'd' {
                if m.template_cursor < m.templates@.len() {
                    Some(Msg::DeleteTemplate(m.templates@[m.template_cursor as int].id))
                } else {
                    None
                }
            } else {
                None
            },
            KeyCode::Enter => if m.template_cursor < m.templates@.len() {
                Some(Msg::OpenEditTemplate(m.templates@[m.template_cursor as int].id))
            } else {
                None
            },
            _ => None,
        },
        Screen::Tasks => {
            let has = m.task_cursor < m.tasks@.len();
            let id = m.tasks@[m.task_cursor as int].id;
            let no_task = r matches Some(Msg::ToastWarn(t)) && t@ == "no task selected"@;
            match k.code {
                KeyCode::Up => r == Some(Msg::TaskCursor(-1isize)),
                KeyCode::Down => r == Some(Msg::TaskCursor(1isize)),
                KeyCode::PageUp => r == Some(Msg::TaskPromptScroll(-8isize)),
                KeyCode::PageDown => r == Some(Msg::TaskPromptScroll(8isize)),
                KeyCode::Enter => if has {
                    r == Some(Msg::OpenEditTask(id))
                } else {
                    no_task
                },
                KeyCode::Char(c) => if c == 'n' {
                    r == Some(Msg::OpenCreateTask)
                } else if c == 'w' {
                    if has {
                        r == Some(Msg::OpenSaveTaskPrompt(id))
                    } else {
                        no_task
                    }
                } else if c == 'e' {
                    if has {
                        r == Some(Msg::OpenEditTask(id))
                    } else {
                        no_task
                    }
                } else if c == ' ' {
                    if has {
                        r == Some(Msg::ToggleTaskSelection(id))
                    } else {
                        no_task
                    }
                } else if c == 'd' {
                    if has {
                        r == Some(Msg::DeleteTask(id))
                    } else {
                        no_task
                    }
                } else {
                    r is None
                },
                _ => r is None,
            }
        },
        _ => r is None,
    }
}

/// What key `k` does in state `m`.
pub open spec fn key_result(m: Model, k: KeyEvent, r: Option<Msg>) -> bool {
    if m.screen == Screen::Help {
        r == Some(Msg::GoScreen(m.prev_screen))
    } else if m.palette_open {
        r == palette_key(k)
    } else if m.confirm is Some {
        r == confirm_key(k)
    } else if m.sequence_editor is Some {
        r == seq_key(m.sequence_editor->0.mode, k)
    } else if m.code_editor is Some {
        r == code_key(m.code_editor->0.mode, k)
    } else if m.gherkin_editor is Some {
        r == gh_key(m.gherkin_editor->0.mode, k)
    } else if m.openapi_editor is Some {
        r == oa_key(m.openapi_editor->0.mode, k)
    } else if m.picker is Some {
        r == picker_key(k)
    } else if m.form is Some {
        let f = m.form->0;
        let focus = if f.cursor < f.fields@.len() {
            Some(f.fields@[f.cursor as int])
        } else {
            None
        };
        r == form_key(
            focus matches Some(x) && x.multiline,
            match focus {
                Some(x) => x.kind,
                None => None,
            },
            k,
        )
    } else if global_key(m, k) is Some {
        r == global_key(m, k)
    } else {
        screen_key(m, k, r)
    }
}

fn palette_key_exec(k: KeyEvent) -> (r: Option<Msg>)
    ensures
        r == palette_key(k),
{
    match k.code {
        KeyCode::Esc => Some(Msg::PalToggle),
        KeyCode::Enter => Some(Msg::PalAccept),
        KeyCode::Backspace => Some(Msg::PalBackspace),
        KeyCode::Up => Some(Msg::PalMove(-1isize)),
        KeyCode::Down => Some(Msg::PalMove(1isize)),
        KeyCode::Char(c) => Some(Msg::PalInput(c)),
        _ => None,
    }
}

fn confirm_key_exec(k: KeyEvent) -> (r: Option<Msg>)
    ensures
        r == confirm_key(k),
{
    match k.code {
        KeyCode::Enter => Some(Msg::AckConfirm),
        KeyCode::Char(c) => if c == 'y' || c == 'Y' {
            Some(Msg::AckConfirm)
        } else if c == 'n' || c == 'N' {
            Some(Msg::CancelConfirm)
        } else {
            None
        },
        KeyCode::Esc => Some(Msg::CancelConfirm),
        _ => None,
    }
}

fn seq_key_exec(mode: &SequenceEditorMode, k: KeyEvent) -> (r: Option<Msg>)
    ensures
        r == seq_key(*mode, k),
{
    match k.code {
        KeyCode::Esc => Some(Msg::SeqEdCancel),
        KeyCode::F(2) => Some(Msg::SeqEdSave),
        KeyCode::Backspace => Some(Msg::SeqEdBackspace),
        KeyCode::Enter => if matches!(mode, SequenceEditorMode::EditEdgeContext { .. }) && (k.alt
            || k.ctrl) {
            Some(Msg::SeqEdInputChar('\n'))
        } else {
            Some(Msg::SeqEdConfirm)
        },
        _ => if !matches!(mode, SequenceEditorMode::Browse) {
            match k.code {
                KeyCode::Left => if k.ctrl {
                    Some(Msg::SeqEdCycleFrom(-1isize))
                } else {
                    Some(Msg::SeqEdCycleTo(-1isize))
                },
                KeyCode::Right => if k.ctrl {
                    Some(Msg::SeqEdCycleFrom(1isize))
                } else {
                    Some(Msg::SeqEdCycleTo(1isize))
                },
                KeyCode::Char(c) => Some(Msg::SeqEdInputChar(c)),
                _ => None,
            }
        } else {
            match k.code {
                KeyCode::Up => Some(Msg::SeqEdMove(-1isize)),
                KeyCode::Down => Some(Msg::SeqEdMove(1isize)),
                KeyCode::Left => Some(Msg::SeqEdMoveParticipant(-1isize)),
                KeyCode::Right => Some(Msg::SeqEdMoveParticipant(1isize)),
                KeyCode::Tab => Some(Msg::SeqEdMoveDiagram(1isize)),
                KeyCode::Char(c) => if c == 'p' {
                    Some(Msg::SeqEdStartAddParticipant)
                } else if c == 'm' {
                    Some(Msg::SeqEdStartAddMessage)
                } else if c == 'c' {
                    Some(Msg::SeqEdStartEditEdgeContext)
                } else if c == 'x' {
                    Some(Msg::SeqEdDeleteEvent)
                } else if c == 'X' {
                    Some(Msg::SeqEdDeleteParticipant)
                } else if c == 'n' {
                    Some(Msg::SeqEdStartAddDiagram)
                } else if c == 'r' {
                    Some(Msg::SeqEdStartRenameDiagram)
                } else if c == 'D' {
                    Some(Msg::SeqEdDeleteDiagram)
                } else {
                    None
                },
                _ => None,
            }
        },
    }
}

fn code_key_exec(mode: &CodeEditorMode, k: KeyEvent) -> (r: Option<Msg>)
    ensures
        r == code_key(*mode, k),
{
    let browse = matches!(mode, CodeEditorMode::Browse);
    match k.code {
        KeyCode::Esc => Some(Msg::CodeEdCancel),
        KeyCode::F(2) => Some(Msg::CodeEdSave),
        KeyCode::Backspace => Some(Msg::CodeEdBackspace),
        KeyCode::Enter => if matches!(mode, CodeEditorMode::EditCode { .. }) && !(k.alt || k.ctrl) {
            Some(Msg::CodeEdInputChar('\n'))
        } else {
            Some(Msg::CodeEdConfirm)
        },
        KeyCode::Tab => if browse {
            Some(Msg::CodeEdMoveBlock(1isize))
        } else {
            Some(Msg::CodeEdInputChar('\t'))
        },
        KeyCode::Char(c) => if browse {
            if c == 'n' {
                Some(Msg::CodeEdStartAddBlock)
            } else if c == 'r' {
                Some(Msg::CodeEdStartRenameBlock)
            } else if c == 'l' {
                Some(Msg::CodeEdStartEditLanguage)
            } else if c == 'e' {
                Some(Msg::CodeEdStartEditCode)
            } else if c == 'D' {
                Some(Msg::CodeEdDeleteBlock)
            } else {
                None
            }
        } else {
            Some(Msg::CodeEdInputChar(c))
        },
        KeyCode::Up => if browse {
            Some(Msg::CodeEdMoveBlock(-1isize))
        } else {
            Some(Msg::CodeEdCaretUp)
        },
        KeyCode::Down => if browse {
            Some(Msg::CodeEdMoveBlock(1isize))
        } else {
            Some(Msg::CodeEdCaretDown)
        },
        KeyCode::Left => if browse {
            None
        } else {
            Some(Msg::CodeEdCaretLeft)
        },
        KeyCode::Right => if browse {
            None
        } else {
            Some(Msg::CodeEdCaretRight)
        },
        KeyCode::Home => if browse {
            None
        } else {
            Some(Msg::CodeEdCaretHome)
        },
        KeyCode::End => if browse {
            None
        } else {
            Some(Msg::CodeEdCaretEnd)
        },
        _ => None,
    }
}

fn gh_key_exec(mode: &GherkinEditorMode, k: KeyEvent) -> (r: Option<Msg>)
    ensures
        r == gh_key(*mode, k),
{
    let browse = matches!(mode, GherkinEditorMode::Browse);
    let multiline = matches!(mode, GherkinEditorMode::EditBackground { .. }) || matches!(
        mode,
        GherkinEditorMode::EditSteps { .. }
    );
    match k.code {
        KeyCode::Esc => Some(Msg::GhEdCancel),
        KeyCode::F(2) => Some(Msg::GhEdSave),
        KeyCode::Backspace => Some(Msg::GhEdBackspace),
        KeyCode::Enter => if multiline && !(k.alt || k.ctrl) {
            Some(Msg::GhEdInputChar('\n'))
        } else {
            Some(Msg::GhEdConfirm)
        },
        KeyCode::Tab => if browse {
            Some(Msg::GhEdMoveFeature(1isize))
        } else {
            Some(Msg::GhEdInputChar('\t'))
        },
        KeyCode::Char(c) => if browse {
            if c == 'n' {
                Some(Msg::GhEdStartAddScenario)
            } else if c == 'r' {
                Some(Msg::GhEdStartRenameScenario)
            } else if c == 'f' {
                Some(Msg::GhEdStartEditFeature)
            } else if c == 'b' {
                Some(Msg::GhEdStartEditBackground)
            } else if c == 'e' {
                Some(Msg::GhEdStartEditSteps)
            } else if c == 'N' {
                Some(Msg::GhEdStartAddFeature)
            } else if c == 'R' {
                Some(Msg::GhEdStartRenameFeature)
            } else if c == 'D' {
                Some(Msg::GhEdDeleteScenario)
            } else if c == 'X' {
                Some(Msg::GhEdDeleteFeature)
            } else {
                None
            }
        } else {
            Some(Msg::GhEdInputChar(c))
        },
        KeyCode::Up => if browse {
            Some(Msg::GhEdMoveScenario(-1isize))
        } else {
            Some(Msg::GhEdCaretUp)
        },
        KeyCode::Down => if browse {
            Some(Msg::GhEdMoveScenario(1isize))
        } else {
            Some(Msg::GhEdCaretDown)
        },
        KeyCode::Left => if browse {
            None
        } else {
            Some(Msg::GhEdCaretLeft)
        },
        KeyCode::Right => if browse {
            None
        } else {
            Some(Msg::GhEdCaretRight)
        },
        KeyCode::Home => if browse {
            None
        } else {
            Some(Msg::GhEdCaretHome)
        },
        KeyCode::End => if browse {
            None
        } else {
            Some(Msg::GhEdCaretEnd)
        },
        _ => None,
    }
}

fn oa_scroll_key_exec(k: KeyEvent) -> (r: Option<Msg>)
    ensures
        r == oa_scroll_key(k),
{
    match k.code {
        KeyCode::PageUp => Some(Msg::OaEdScrollPreview(-6isize)),
        KeyCode::PageDown => Some(Msg::OaEdScrollPreview(6isize)),
        KeyCode::Up => if k.ctrl {
            Some(Msg::OaEdScrollPreview(-1isize))
        } else {
            None
        },
        KeyCode::Down => if k.ctrl {
            Some(Msg::OaEdScrollPreview(1isize))
        } else {
            None
        },
        _ => None,
    }
}

fn oa_schemas_key_exec(k: KeyEvent) -> (r: Option<Msg>)
    ensures
        r == oa_schemas_key(k),
{
    let s = oa_scroll_key_exec(k);
    if s.is_some() {
        return s;
    }
    match k.code {
        KeyCode::Tab => Some(Msg::OaEdMoveSchema(1isize)),
        KeyCode::Up => Some(Msg::OaEdMoveProp(-1isize)),
        KeyCode::Down => Some(Msg::OaEdMoveProp(1isize)),
        KeyCode::Char(c) => if c == 'g' {
            Some(Msg::OaEdTogglePane)
        } else if c == 'n' {
            Some(Msg::OaEdStartAddSchema)
        } else if c == 'D' {
            Some(Msg::OaEdDeleteSchema)
        } else if c == 'h' {
            Some(Msg::OaEdStartRenameSchema)
        } else if c == 'p' {
            Some(Msg::OaEdStartAddProp)
        } else if c == 'x' {
            Some(Msg::OaEdDeleteProp)
        } else if c == ' ' {
            Some(Msg::OaEdTogglePropRequired)
        } else if c == 't' {
            Some(Msg::OaEdCyclePropType(1isize))
        } else if c == 'a' {
            Some(Msg::OaEdTogglePropNullable)
        } else if c == 'f' {
            Some(Msg::OaEdCyclePropFormat(1isize))
        } else if c == 'r' {
            Some(Msg::OaEdStartRenameProp)
        } else if c == 'i' {
            Some(Msg::OaEdStartEditPropMin)
        } else if c == 'k' {
            Some(Msg::OaEdStartEditPropMax)
        } else if c == '/' {
            Some(Msg::OaEdStartEditPropPattern)
        } else if c == 'e' {
            Some(Msg::OaEdStartEditPropEnum)
        } else {
            None
        },
        _ => None,
    }
}

fn oa_browse_key_exec(k: KeyEvent) -> (r: Option<Msg>)
    ensures
        r == oa_browse_key(k),
{
    let s = oa_scroll_key_exec(k);
    if s.is_some() {
        return s;
    }
    match k.code {
        KeyCode::Tab => Some(Msg::OaEdMoveEndpoint(1isize)),
        KeyCode::Up => Some(Msg::OaEdMoveEndpoint(-1isize)),
        KeyCode::Down => Some(Msg::OaEdMoveEndpoint(1isize)),
        KeyCode::Char(c) => if c == 'g' {
            Some(Msg::OaEdTogglePane)
        } else if c == 'n' {
            Some(Msg::OaEdStartAddEndpoint)
        } else if c == 'D' {
            Some(Msg::OaEdDeleteEndpoint)
        } else if c == 'm' {
            Some(Msg::OaEdCycleMethod(1isize))
        } else if c == 's' {
            Some(Msg::OaEdCycleStatus(1isize))
        } else if c == 'c' {
            Some(Msg::OaEdCycleReqContentType(1isize))
        } else if c == 'r' {
            Some(Msg::OaEdCycleReqBody(1isize))
        } else if c == 'p' {
            Some(Msg::OaEdCycleRespBody(1isize))
        } else if c == 'u' {
            Some(Msg::OaEdStartEditPath)
        } else if c == 't' {
            Some(Msg::OaEdStartEditTitle)
        } else if c == 'v' {
            Some(Msg::OaEdStartEditVersion)
        } else if c == 'b' {
            Some(Msg::OaEdStartEditBaseUrl)
        } else {
            None
        },
        _ => None,
    }
}

fn oa_key_exec(mode: &OpenApiEditorMode, k: KeyEvent) -> (r: Option<Msg>)
    ensures
        r == oa_key(*mode, k),
{
    match k.code {
        KeyCode::Esc => Some(Msg::OaEdCancel),
        KeyCode::F(2) => Some(Msg::OaEdSave),
        KeyCode::Backspace => Some(Msg::OaEdBackspace),
        KeyCode::Enter => Some(Msg::OaEdConfirm),
        _ => match mode {
            OpenApiEditorMode::Browse => oa_browse_key_exec(k),
            OpenApiEditorMode::Schemas => oa_schemas_key_exec(k),
            _ => match k.code {
                KeyCode::Tab => Some(Msg::OaEdInputChar('\t')),
                KeyCode::Char(c) => Some(Msg::OaEdInputChar(c)),
                _ => None,
            },
        },
    }
}

fn picker_key_exec(k: KeyEvent) -> (r: Option<Msg>)
    ensures
        r == picker_key(k),
{
    match k.code {
        KeyCode::Esc => Some(Msg::PickerCancel),
        KeyCode::Enter => Some(Msg::PickerAccept),
        KeyCode::Up => Some(Msg::PickerMove(-1isize)),
        KeyCode::Down => Some(Msg::PickerMove(1isize)),
        _ => None,
    }
}

fn form_key_exec(multiline: bool, kind: Option<FieldKind>, k: KeyEvent) -> (r: Option<Msg>)
    ensures
        r == form_key(multiline, kind, k),
{
    let submit = k.code == KeyCode::F(2) || (k.code == KeyCode::Char('s') && k.ctrl) || (k.code
        == KeyCode::Enter && (k.ctrl || k.alt)) || (k.code == KeyCode::Enter && !multiline);
    if submit {
        return Some(Msg::FormSubmit);
    }
    match k.code {
        KeyCode::Esc => Some(Msg::FormCancel),
        KeyCode::Tab => Some(Msg::FormNext),
        KeyCode::BackTab => Some(Msg::FormPrev),
        KeyCode::F(n) => if n == 3 && kind == Some(FieldKind::SequenceGram) {
            Some(Msg::OpenSequenceEditor)
        } else if n == 4 && kind == Some(FieldKind::CodeBlocks) {
            Some(Msg::OpenCodeEditor)
        } else if n == 5 && kind == Some(FieldKind::Gherkin) {
            Some(Msg::OpenGherkinEditor)
        } else if n == 6 && kind == Some(FieldKind::OpenApi) {
            Some(Msg::OpenOpenApiEditor)
        } else {
            None
        },
        KeyCode::Up => if multiline {
            Some(Msg::FormCaretUp)
        } else {
            Some(Msg::FormPrev)
        },
        KeyCode::Down => if multiline {
            Some(Msg::FormCaretDown)
        } else {
            Some(Msg::FormNext)
        },
        KeyCode::Left => Some(Msg::FormCaretLeft),
        KeyCode::Right => Some(Msg::FormCaretRight),
        KeyCode::Home => Some(Msg::FormCaretHome),
        KeyCode::End => Some(Msg::FormCaretEnd),
        KeyCode::Backspace => Some(Msg::FormBackspace),
        KeyCode::Enter => Some(Msg::FormInputChar('\n')),
        KeyCode::Char(c) => Some(Msg::FormInputChar(c)),
        _ => None,
    }
}

fn global_key_exec(m: &Model, k: KeyEvent) -> (r: Option<Msg>)
    ensures
        r == global_key(*m, k),
{
    let only_ctrl = k.ctrl && !k.alt && !k.shift && !k.meta;
    match k.code {
        KeyCode::Char(c) => if c == 'q' || (c == 'c' && only_ctrl) {
            Some(Msg::Quit)
        } else if (c == 'k' && only_ctrl) || c == '/' {
            Some(Msg::PalToggle)
        } else if c == '?' {
            Some(Msg::ShowHelp)
        } else if c == '1' {
            Some(Msg::GoScreen(Screen::Templates))
        } else if c == '2' {
            Some(Msg::GoScreen(Screen::Tasks))
        } else if c == '3' {
            Some(Msg::GoScreen(Screen::Info))
        } else {
            None
        },
        KeyCode::F(n) => if n == 1 {
            Some(Msg::ShowHelp)
        } else {
            None
        },
        KeyCode::Esc => if m.toasts.len() > 0 {
            Some(Msg::DismissToast)
        } else {
            None
        },
        KeyCode::Tab => Some(Msg::NextTab),
        KeyCode::BackTab => Some(Msg::PrevTab),
        _ => None,
    }
}

/// The keys of the screen on show.
pub fn handle_key(m: &Model, k: KeyEvent) -> (r: Option<Msg>)
    ensures
        screen_key(*m, k, r),
{
    match m.screen {
        Screen::Templates => {
            let cur = if m.template_cursor < m.templates.len() {
                Some(m.templates[m.template_cursor].id)
            } else {
                None
            };
            match k.code {
                KeyCode::Up => Some(Msg::TemplateCursor(-1isize)),
                KeyCode::Down => Some(Msg::TemplateCursor(1isize)),
                KeyCode::Char(c) => if c == 'n' {
                    Some(Msg::OpenCreateTemplate)
                } else if c == 'e' {
                    match cur {
                        Some(id) => Some(Msg::OpenEditTemplate(id)),
                        None => None,
                    }
                } else if c == 'd' {
                    match cur {
                        Some(id) => Some(Msg::DeleteTemplate(id)),
                        None => None,
                    }
                } else {
                    None
                },
                KeyCode::Enter => match cur {
                    Some(id) => Some(Msg::OpenEditTemplate(id)),
                    None => None,
                },
                _ => None,
            }
        },
        Screen::Tasks => {
            let tasks = m.tasks_for_selected_project();
            let cur = if m.task_cursor < tasks.len() {
                Some(tasks[m.task_cursor].id)
            } else {
                None
            };
            proof {
                reveal_strlit("no task selected");
            }
            match k.code {
                KeyCode::Up => Some(Msg::TaskCursor(-1isize)),
                KeyCode::Down => Some(Msg::TaskCursor(1isize)),
                KeyCode::PageUp => Some(Msg::TaskPromptScroll(-8isize)),
                KeyCode::PageDown => Some(Msg::TaskPromptScroll(8isize)),
                KeyCode::Enter => match cur {
                    Some(id) => Some(Msg::OpenEditTask(id)),
                    None => Some(Msg::ToastWarn("no task selected".to_string())),
                },
                KeyCode::Char(c) => if c == 'n' {
                    Some(Msg::OpenCreateTask)
                } else if c == 'w' || c == 'e' || c == ' ' || c == 'd' {
                    match cur {
                        Some(id) => Some(
                            if c == 'w' {
                                Msg::OpenSaveTaskPrompt(id)
                            } else if c == 'e' {
                                Msg::OpenEditTask(id)
                            } else if c == ' ' {
                                Msg::ToggleTaskSelection(id)
                            } else {
                                Msg::DeleteTask(id)
                            },
                        ),
                        None => Some(Msg::ToastWarn("no task selected".to_string())),
                    }
                } else {
                    None
                },
                _ => None,
            }
        },
        _ => None,
    }
}

/// The message a key sends in state `m`, if any: the open overlay takes
/// the key first (help, palette, confirmation, an editor, the picker, a
/// form), then the global keys, then the screen's.
pub fn translate(m: &Model, k: KeyEvent) -> (r: Option<Msg>)
    ensures
        key_result(*m, k, r),
{
    if m.screen == Screen::Help {
        return Some(Msg::GoScreen(m.prev_screen));
    }
    if m.palette_open {
        return palette_key_exec(k);
    }
    if m.confirm.is_some() {
        return confirm_key_exec(k);
    }
    match &m.sequence_editor {
        Some(ed) => {
            return seq_key_exec(&ed.mode, k);
        },
        None => {},
    }
    match &m.code_editor {
        Some(ed) => {
            return code_key_exec(&ed.mode, k);
        },
        None => {},
    }
    match &m.gherkin_editor {
        Some(ed) => {
            return gh_key_exec(&ed.mode, k);
        },
        None => {},
    }
    match &m.openapi_editor {
        Some(ed) => {
            return oa_key_exec(&ed.mode, k);
        },
        None => {},
    }
    if m.picker.is_some() {
        return picker_key_exec(k);
    }
    match &m.form {
        Some(f) => {
            let (multiline, kind) = if f.cursor < f.fields.len() {
                (f.fields[f.cursor].multiline, f.fields[f.cursor].kind)
            } else {
                (false, None)
            };
            return form_key_exec(multiline, kind, k);
        },
        None => {},
    }
    let g = global_key_exec(m, k);
    if g.is_some() {
        return g;
    }
    handle_key(m, k)
}


/// One line of the key help: the keys and what they do.
#[derive(Clone, Copy, Debug)]
pub struct KeybindHelp {
    pub key: &'static str,
    pub description: &'static str,
}
/// The keys that work everywhere.
pub fn global_keys() -> (r: Vec<KeybindHelp>)
    ensures
        r@.len() == 6,
{
    vec![
        KeybindHelp { key: "Tab / Shift+Tab", description: "Next/prev screen" },
        KeybindHelp { key: "1..3", description: "Jump to screen" },
        KeybindHelp { key: "q / Ctrl+C", description: "Quit" },
        KeybindHelp { key: "Ctrl+K or /", description: "Command palette" },
        KeybindHelp { key: "? / F1", description: "Help" },
        KeybindHelp { key: "Esc", description: "Cancel dialog / close palette" },
    ]
}

/// The keys of a form.
pub fn form_keys() -> (r: Vec<KeybindHelp>)
    ensures
        r@.len() == 11,
{
    vec![
        KeybindHelp { key: "F2", description: "Submit form (universal)" },
        KeybindHelp { key: "Ctrl+S", description: "Submit form" },
        KeybindHelp { key: "Alt+Enter", description: "Submit form (works from multiline fields)" },
        KeybindHelp { key: "Enter", description: "Submit (single-line field) / newline (multiline)" },
        KeybindHelp { key: "Ctrl+Enter", description: "Submit form (Kitty-protocol terminals only)" },
        KeybindHelp { key: "Tab / Shift+Tab", description: "Next / previous field" },
        KeybindHelp { key: "↓ / ↑  (single-line)", description: "Next / previous field" },
        KeybindHelp { key: "↓ / ↑  (multiline)", description: "Move caret up/down within the text" },
        KeybindHelp { key: "← / →", description: "Move caret within the current line" },
        KeybindHelp { key: "Home / End", description: "Jump to start / end of current line" },
        KeybindHelp { key: "Esc", description: "Cancel form" },
    ]
}

/// The keys of the list screens.
pub fn screen_keys() -> (r: Vec<KeybindHelp>)
    ensures
        r@.len() == 7,
{
    vec![
        KeybindHelp { key: "↑ / ↓", description: "Move cursor" },
        KeybindHelp { key: "Enter", description: "Primary action (edit / inspect / submit)" },
        KeybindHelp { key: "n", description: "New (on Projects / Templates / Tasks)" },
        KeybindHelp { key: "e", description: "Edit (on Projects / Templates / Tasks)" },
        KeybindHelp { key: "d", description: "Delete (with confirmation)" },
        KeybindHelp { key: "Space", description: "Toggle multi-select (Tasks)" },
        KeybindHelp { key: "w", description: "Write selected task prompt to markdown (Tasks)" },
    ]
}

/// With a yes/no question open, and neither the help screen nor the
/// palette in front of it, Enter, `y` and `Y` answer yes, Esc, `n` and
/// `N` answer no, and every other key is ignored.
pub proof fn lemma_confirm_answers(m: Model, k: KeyEvent, r: Option<Msg>)
    requires
        m.screen != Screen::Help,
        !m.palette_open,
        m.confirm is Some,
        key_result(m, k, r),
    ensures
        r == Some(Msg::AckConfirm) <==> (k.code == KeyCode::Enter || k.code == KeyCode::Char('y')
            || k.code == KeyCode::Char('Y')),
        r == Some(Msg::CancelConfirm) <==> (k.code == KeyCode::Esc || k.code == KeyCode::Char('n')
            || k.code == KeyCode::Char('N')),
        r is None || r == Some(Msg::AckConfirm) || r == Some(Msg::CancelConfirm),
{
}

/// On the help screen any key goes back to the screen it was opened from.
pub proof fn lemma_help_any_key_returns(m: Model, k: KeyEvent, r: Option<Msg>)
    requires
        m.screen == Screen::Help,
        key_result(m, k, r),
    ensures
        r == Some(Msg::GoScreen(m.prev_screen)),
{
}

/// With the palette open (and the help screen not shown) the palette takes
/// every key: Esc closes it, Enter runs the chosen command, Backspace
/// deletes, the arrows move the choice by one, and a character is typed
/// into the query; other keys do nothing, whatever else is open.
pub proof fn lemma_palette_keys(m: Model, k: KeyEvent, r: Option<Msg>)
    requires
        m.screen != Screen::Help,
        m.palette_open,
        key_result(m, k, r),
    ensures
        k.code == KeyCode::Esc ==> r == Some(Msg::PalToggle),
        k.code == KeyCode::Enter ==> r == Some(Msg::PalAccept),
        k.code == KeyCode::Backspace ==> r == Some(Msg::PalBackspace),
        k.code == KeyCode::Up ==> r == Some(Msg::PalMove(-1isize)),
        k.code == KeyCode::Down ==> r == Some(Msg::PalMove(1isize)),
        forall|c: char| k.code == KeyCode::Char(c) ==> r == Some(Msg::PalInput(c)),
        !(k.code == KeyCode::Esc || k.code == KeyCode::Enter || k.code == KeyCode::Backspace
            || k.code == KeyCode::Up || k.code == KeyCode::Down || k.code is Char) ==> r is None,
{
}

/// In a form, with nothing else open in front of it: F2, Ctrl+S and
/// Ctrl+ or Alt+Enter submit; a plain Enter submits when the focused field
/// is single-line and starts a new line in a multiline one; Esc cancels;
/// Tab and Shift+Tab move to the next and previous field; and any other
/// character is typed into the focused field.
pub proof fn lemma_form_keys(m: Model, k: KeyEvent, r: Option<Msg>)
    requires
        m.screen != Screen::Help,
        !m.palette_open,
        m.confirm is None,
        m.sequence_editor is None,
        m.code_editor is None,
        m.gherkin_editor is None,
        m.openapi_editor is None,
        m.picker is None,
        m.form is Some,
        key_result(m, k, r),
    ensures
        ({
            let f = m.form->0;
            let multiline = f.cursor < f.fields@.len() && f.fields@[f.cursor as int].multiline;
            &&& k.code == KeyCode::F(2) ==> r == Some(Msg::FormSubmit)
            &&& (k.code == KeyCode::Char('s') && k.ctrl) ==> r == Some(Msg::FormSubmit)
            &&& (k.code == KeyCode::Enter && (k.ctrl || k.alt)) ==> r == Some(Msg::FormSubmit)
            &&& (k.code == KeyCode::Enter && !k.ctrl && !k.alt && !multiline) ==> r == Some(
                Msg::FormSubmit,
            )
            &&& (k.code == KeyCode::Enter && !k.ctrl && !k.alt && multiline) ==> r == Some(
                Msg::FormInputChar('\n'),
            )
            &&& k.code == KeyCode::Esc ==> r == Some(Msg::FormCancel)
            &&& k.code == KeyCode::Tab ==> r == Some(Msg::FormNext)
            &&& k.code == KeyCode::BackTab ==> r == Some(Msg::FormPrev)
            &&& forall|c: char|
                k.code == KeyCode::Char(c) && !(c == 's' && k.ctrl) ==> r == Some(
                    Msg::FormInputChar(c),
                )
        }),
{
}

/// Answering a yes/no question, from the key to the new state: whichever
/// key answers it, the question goes away and nothing else changes; a no
/// (Esc, `n`, `N`) runs nothing, and a yes (Enter, `y`, `Y`) sends the
/// message the question was asked for.
pub proof fn lemma_confirm_answer_applied(
    a: Model,
    k: KeyEvent,
    msg: Msg,
    b: Model,
    cmd: Option<Cmd>,
)
    requires
        a.screen != Screen::Help,
        !a.palette_open,
        a.confirm is Some,
        key_result(a, k, Some(msg)),
        stepped(a, msg, b, cmd),
    ensures
        b == (Model { confirm: None, ..a }),
        (k.code == KeyCode::Esc || k.code == KeyCode::Char('n') || k.code == KeyCode::Char('N'))
            ==> cmd is None,
        (k.code == KeyCode::Enter || k.code == KeyCode::Char('y') || k.code == KeyCode::Char('Y'))
            ==> cmd == Some(Cmd::Dispatch(*a.confirm->0.accept)),
{
    lemma_confirm_answers(a, k, Some(msg));
}

/// Help comes back to where it was opened: after opening the help screen,
/// any key leads back, and applying it restores the screen that was shown
/// before, with nothing else changed.
pub proof fn lemma_help_round_trip(
    a: Model,
    b: Model,
    cmd: Option<Cmd>,
    k: KeyEvent,
    msg: Msg,
    c: Model,
    cmd2: Option<Cmd>,
)
    requires
        a.screen != Screen::Help,
        stepped(a, Msg::ShowHelp, b, cmd),
        key_result(b, k, Some(msg)),
        stepped(b, msg, c, cmd2),
    ensures
        cmd is None,
        cmd2 is None,
        c == (Model { prev_screen: Screen::Help, ..a }),
{
}

/// The sequence-gram editor takes every key while open (with no help,
/// palette or question in front of it): Esc cancels, F2 saves, Backspace
/// deletes; Enter confirms, except that Alt+ or Ctrl+Enter starts a new
/// line while edge context is edited; and outside browsing a character is
/// typed.
pub proof fn lemma_sequence_editor_keys(m: Model, k: KeyEvent, r: Option<Msg>)
    requires
        m.screen != Screen::Help,
        !m.palette_open,
        m.confirm is None,
        m.sequence_editor is Some,
        key_result(m, k, r),
    ensures
        ({
            let mode = m.sequence_editor->0.mode;
            &&& k.code == KeyCode::Esc ==> r == Some(Msg::SeqEdCancel)
            &&& k.code == KeyCode::F(2) ==> r == Some(Msg::SeqEdSave)
            &&& k.code == KeyCode::Backspace ==> r == Some(Msg::SeqEdBackspace)
            &&& (k.code == KeyCode::Enter && (mode is EditEdgeContext) && (k.alt || k.ctrl)) ==> r
                == Some(Msg::SeqEdInputChar('\n'))
            &&& (k.code == KeyCode::Enter && !((mode is EditEdgeContext) && (k.alt || k.ctrl)))
                ==> r == Some(Msg::SeqEdConfirm)
            &&& forall|c: char|
                k.code == KeyCode::Char(c) && !(mode is Browse) ==> r == Some(
                    Msg::SeqEdInputChar(c),
                )
        }),
{
}

/// The code-blocks editor takes every key while open (with no help,
/// palette, question or sequence-gram editor in front of it): Esc cancels,
/// F2 saves, Backspace deletes; while code is edited a plain Enter starts
/// a new line and Alt+ or Ctrl+Enter confirms, elsewhere Enter confirms;
/// outside browsing Tab and characters are typed.
pub proof fn lemma_code_editor_keys(m: Model, k: KeyEvent, r: Option<Msg>)
    requires
        m.screen != Screen::Help,
        !m.palette_open,
        m.confirm is None,
        m.sequence_editor is None,
        m.code_editor is Some,
        key_result(m, k, r),
    ensures
        ({
            let mode = m.code_editor->0.mode;
            &&& k.code == KeyCode::Esc ==> r == Some(Msg::CodeEdCancel)
            &&& k.code == KeyCode::F(2) ==> r == Some(Msg::CodeEdSave)
            &&& k.code == KeyCode::Backspace ==> r == Some(Msg::CodeEdBackspace)
            &&& (k.code == KeyCode::Enter && (mode is EditCode) && !(k.alt || k.ctrl)) ==> r
                == Some(Msg::CodeEdInputChar('\n'))
            &&& (k.code == KeyCode::Enter && !((mode is EditCode) && !(k.alt || k.ctrl))) ==> r
                == Some(Msg::CodeEdConfirm)
            &&& (k.code == KeyCode::Tab && !(mode is Browse)) ==> r == Some(
                Msg::CodeEdInputChar('\t'),
            )
            &&& forall|c: char|
                k.code == KeyCode::Char(c) && !(mode is Browse) ==> r == Some(
                    Msg::CodeEdInputChar(c),
                )
        }),
{
}

/// The Gherkin editor takes every key while open (with no help, palette,
/// question or other editor in front of it): Esc cancels, F2 saves,
/// Backspace deletes; while a background or steps are edited a plain
/// Enter starts a new line and Alt+ or Ctrl+Enter confirms, elsewhere
/// Enter confirms; outside browsing Tab and characters are typed.
pub proof fn lemma_gherkin_editor_keys(m: Model, k: KeyEvent, r: Option<Msg>)
    requires
        m.screen != Screen::Help,
        !m.palette_open,
        m.confirm is None,
        m.sequence_editor is None,
        m.code_editor is None,
        m.gherkin_editor is Some,
        key_result(m, k, r),
    ensures
        ({
            let mode = m.gherkin_editor->0.mode;
            let multiline = (mode is EditBackground) || (mode is EditSteps);
            &&& k.code == KeyCode::Esc ==> r == Some(Msg::GhEdCancel)
            &&& k.code == KeyCode::F(2) ==> r == Some(Msg::GhEdSave)
            &&& k.code == KeyCode::Backspace ==> r == Some(Msg::GhEdBackspace)
            &&& (k.code == KeyCode::Enter && multiline && !(k.alt || k.ctrl)) ==> r == Some(
                Msg::GhEdInputChar('\n'),
            )
            &&& (k.code == KeyCode::Enter && !(multiline && !(k.alt || k.ctrl))) ==> r == Some(
                Msg::GhEdConfirm,
            )
            &&& (k.code == KeyCode::Tab && !(mode is Browse)) ==> r == Some(
                Msg::GhEdInputChar('\t'),
            )
            &&& forall|c: char|
                k.code == KeyCode::Char(c) && !(mode is Browse) ==> r == Some(
                    Msg::GhEdInputChar(c),
                )
        }),
{
}

/// The OpenAPI editor takes every key while open (with no help, palette,
/// question or other editor in front of it): Esc cancels, F2 saves,
/// Backspace deletes and Enter confirms; while a text is edited Tab and
/// characters are typed.
pub proof fn lemma_openapi_editor_keys(m: Model, k: KeyEvent, r: Option<Msg>)
    requires
        m.screen != Screen::Help,
        !m.palette_open,
        m.confirm is None,
        m.sequence_editor is None,
        m.code_editor is None,
        m.gherkin_editor is None,
        m.openapi_editor is Some,
        key_result(m, k, r),
    ensures
        ({
            let mode = m.openapi_editor->0.mode;
            let typing = !(mode is Browse) && !(mode is Schemas);
            &&& k.code == KeyCode::Esc ==> r == Some(Msg::OaEdCancel)
            &&& k.code == KeyCode::F(2) ==> r == Some(Msg::OaEdSave)
            &&& k.code == KeyCode::Backspace ==> r == Some(Msg::OaEdBackspace)
            &&& k.code == KeyCode::Enter ==> r == Some(Msg::OaEdConfirm)
            &&& (k.code == KeyCode::Tab && typing) ==> r == Some(Msg::OaEdInputChar('\t'))
            &&& forall|c: char|
                k.code == KeyCode::Char(c) && typing ==> r == Some(Msg::OaEdInputChar(c))
        }),
{
}

/// The template picker takes every key while open (with nothing else in
/// front of it): Esc cancels, Enter takes the chosen item, the arrows move
/// the choice by one, and other keys do nothing.
pub proof fn lemma_picker_keys(m: Model, k: KeyEvent, r: Option<Msg>)
    requires
        m.screen != Screen::Help,
        !m.palette_open,
        m.confirm is None,
        m.sequence_editor is None,
        m.code_editor is None,
        m.gherkin_editor is None,
        m.openapi_editor is None,
        m.picker is Some,
        key_result(m, k, r),
    ensures
        k.code == KeyCode::Esc ==> r == Some(Msg::PickerCancel),
        k.code == KeyCode::Enter ==> r == Some(Msg::PickerAccept),
        k.code == KeyCode::Up ==> r == Some(Msg::PickerMove(-1isize)),
        k.code == KeyCode::Down ==> r == Some(Msg::PickerMove(1isize)),
        !(k.code == KeyCode::Esc || k.code == KeyCode::Enter || k.code == KeyCode::Up || k.code
            == KeyCode::Down) ==> r is None,
{
}

/// With nothing open over the screen, the global keys work on every
/// screen: `q` and Ctrl+C quit, Ctrl+K and `/` open the palette, `?` and
/// F1 show help, `1`, `2` and `3` go to the templates, tasks and info
/// screens, and Tab and Shift+Tab move between the tabs.
pub proof fn lemma_global_keys(m: Model, k: KeyEvent, r: Option<Msg>)
    requires
        m.screen != Screen::Help,
        !m.palette_open,
        m.confirm is None,
        m.sequence_editor is None,
        m.code_editor is None,
        m.gherkin_editor is None,
        m.openapi_editor is None,
        m.picker is None,
        m.form is None,
        key_result(m, k, r),
    ensures
        k.code == KeyCode::Char('q') ==> r == Some(Msg::Quit),
        (k.code == KeyCode::Char('c') && k.ctrl && !k.alt && !k.shift && !k.meta) ==> r == Some(
            Msg::Quit,
        ),
        (k.code == KeyCode::Char('k') && k.ctrl && !k.alt && !k.shift && !k.meta) ==> r == Some(
            Msg::PalToggle,
        ),
        k.code == KeyCode::Char('/') ==> r == Some(Msg::PalToggle),
        (k.code == KeyCode::Char('?') || k.code == KeyCode::F(1)) ==> r == Some(Msg::ShowHelp),
        k.code == KeyCode::Char('1') ==> r == Some(Msg::GoScreen(Screen::Templates)),
        k.code == KeyCode::Char('2') ==> r == Some(Msg::GoScreen(Screen::Tasks)),
        k.code == KeyCode::Char('3') ==> r == Some(Msg::GoScreen(Screen::Info)),
        k.code == KeyCode::Tab ==> r == Some(Msg::NextTab),
        k.code == KeyCode::BackTab ==> r == Some(Msg::PrevTab),
{
}

} // verus!
