//! Sizes the screen layout takes from the model: the height of the
//! status strip and how far the prompt preview may scroll.

use vstd::prelude::*;
use crate::fields::FieldKind;
use crate::form::FormField;
use crate::model::{Model, Msg};
use crate::sequence::SequenceEvent;
use crate::text::{append, chars_of, slice, string_of, trim, v_trim};
use crate::ui::{Screen, Toast, ToastLevel, wrapped_row_count, wrapped_rows};
use crate::utf8::{byte_len, floor_idx, floor_idx_exec};

verus! {

/// The number of `\n` in `s`.
pub open spec fn newlines(s: Seq<char>) -> nat
    decreases s.len(),
{
    if s.len() == 0 {
        0
    } else {
        newlines(s.drop_last()) + if s.last() == '\n' {
            1nat
        } else {
            0nat
        }
    }
}

/// The number of lines of `s` (`str::lines().count()`): a last line
/// without a `\n` counts too.
pub open spec fn line_count(s: Seq<char>) -> nat {
    if s.len() == 0 || s.last() == '\n' {
        newlines(s)
    } else {
        newlines(s) + 1
    }
}

fn count_newlines(s: &Vec<char>) -> (r: usize)
    ensures
        r == newlines(s@),
{
    let mut n: usize = 0;
    let mut i: usize = 0;
    while i < s.len()
        invariant
            i <= s.len(),
            n == newlines(s@.take(i as int)),
            n <= i,
        decreases s.len() - i,
    {
        proof {
            assert(s@.take(i + 1).drop_last() =~= s@.take(i as int));
        }
        if s[i] == '\n' {
            n = n + 1;
        }
        i = i + 1;
    }
    proof {
        assert(s@.take(s@.len() as int) =~= s@);
    }
    n
}

/// The number of lines of `s`.
pub fn lines_in(s: &str) -> (r: usize)
    ensures
        r == line_count(s@),
{
    let cs = chars_of(s);
    let n = count_newlines(&cs);
    proof {
        lemma_newlines_le(cs@);
    }
    if cs.len() == 0 || cs[cs.len() - 1] == '\n' {
        n
    } else {
        n + 1
    }
}

proof fn lemma_newlines_le(s: Seq<char>)
    ensures
        newlines(s) <= s.len(),
        s.len() > 0 && s.last() != '\n' ==> newlines(s) < s.len(),
    decreases s.len(),
{
    if s.len() > 0 {
        lemma_newlines_le(s.drop_last());
    }
}

/// Rows of the status strip: one per line of the newest toast, at most
/// 16; one when there is no toast.
pub open spec fn status_rows(model: Model) -> nat {
    if model.toasts@.len() == 0 {
        1
    } else {
        let lines = 1 + newlines(model.toasts@.last().text@);
        if lines > 16 {
            16
        } else {
            lines
        }
    }
}

/// Rows of the status strip, so that a multi-line toast is shown whole.
pub fn status_height_for(model: &Model) -> (r: u16)
    ensures
        r == status_rows(*model),
{
    if model.toasts.len() == 0 {
        return 1;
    }
    let n = count_newlines(&chars_of(model.toasts[model.toasts.len() - 1].text.as_str()));
    if n >= 15 {
        16
    } else {
        (n + 1) as u16
    }
}

/// How far a preview of `text` may scroll from `scroll`: to its last
/// line at most.
pub open spec fn clamped_scroll(scroll: nat, text: Seq<char>) -> nat {
    let top = if line_count(text) == 0 {
        0
    } else {
        (line_count(text) - 1) as nat
    };
    if scroll > top {
        top
    } else {
        scroll
    }
}

/// `scroll` kept within the lines of `text`.
pub fn clamp_prompt_scroll(scroll: usize, text: &str) -> (r: usize)
    ensures
        r == clamped_scroll(scroll as nat, text@),
{
    let lines = lines_in(text);
    let top = if lines == 0 {
        0
    } else {
        lines - 1
    };
    if scroll > top {
        top
    } else {
        scroll
    }
}

/// The row edits a sequence-gram value in its own editor.
pub open spec fn is_sequence_row(f: FormField) -> bool {
    f.kind == Some(FieldKind::SequenceGram)
}

fn is_sequence_row_exec(f: &FormField) -> (r: bool)
    ensures
        r == is_sequence_row(*f),
{
    match f.kind {
        Some(FieldKind::SequenceGram) => true,
        _ => false,
    }
}

/// The title of a form row: its label, ` *` when it is required, and
/// for a sequence-gram row the key that opens its editor.
pub open spec fn row_title(f: FormField) -> Seq<char> {
    let badge = if is_sequence_row(f) {
        "  [F3 open editor]"@
    } else {
        Seq::empty()
    };
    if f.required {
        " "@ + f.label@ + " *"@ + badge + " "@
    } else {
        " "@ + f.label@ + badge + " "@
    }
}

/// The title of a form row.
pub fn form_row_title(f: &FormField) -> (r: String)
    ensures
        r@ == row_title(*f),
{
    proof {
        reveal_strlit("  [F3 open editor]");
        reveal_strlit(" ");
        reveal_strlit(" *");
    }
    let mut v = chars_of(" ");
    append(&mut v, &chars_of(f.label.as_str()));
    if f.required {
        append(&mut v, &chars_of(" *"));
    }
    if is_sequence_row_exec(f) {
        append(&mut v, &chars_of("  [F3 open editor]"));
    }
    append(&mut v, &chars_of(" "));
    proof {
        assert(v@ =~= row_title(*f));
    }
    string_of(&v)
}

/// The text shown in a form row: a sequence-gram row shows its stored
/// text, or a hint when blank; the focused row shows `▌` at the caret;
/// any other row its value.
pub open spec fn row_body(f: FormField, focused: bool) -> Seq<char> {
    if is_sequence_row(f) {
        if trim(f.value@).len() == 0 {
            "<sequence diagram — press F3 to edit>"@
        } else {
            f.value@
        }
    } else if focused {
        let k = floor_idx(f.value@, f.caret as int) as int;
        f.value@.take(k) + seq!['▌'] + f.value@.skip(k)
    } else {
        f.value@
    }
}

/// The caret is on a character boundary, or at or past the end.
pub open spec fn caret_placed(f: FormField) -> bool {
    f.caret_ok() || f.caret >= byte_len(f.value@)
}

/// The text shown in a form row.
pub fn form_row_body(f: &FormField, focused: bool) -> (r: String)
    requires
        focused && !is_sequence_row(*f) ==> caret_placed(*f),
    ensures
        r@ == row_body(*f, focused),
{
    proof {
        reveal_strlit("<sequence diagram — press F3 to edit>");
    }
    let cs = chars_of(f.value.as_str());
    if is_sequence_row_exec(f) {
        if v_trim(&cs).len() == 0 {
            return "<sequence diagram — press F3 to edit>".to_string();
        }
        return string_of(&cs);
    }
    if !focused {
        return string_of(&cs);
    }
    let k = floor_idx_exec(&cs, f.caret);
    let mut v = slice(&cs, 0, k);
    v.push('▌');
    append(&mut v, &slice(&cs, k, cs.len()));
    proof {
        assert(v@ =~= row_body(*f, focused));
    }
    string_of(&v)
}

/// How far the focused row scrolls so that the caret's wrapped row is
/// the last one shown, in a box `w` by `h` cells with borders.
pub open spec fn row_scroll(f: FormField, w: u16, h: u16) -> nat {
    let inner_w: nat = if w >= 2 {
        (w - 2) as nat
    } else {
        0
    };
    let inner_h: nat = if h >= 3 {
        (h - 2) as nat
    } else {
        1
    };
    let k = floor_idx(f.value@, f.caret as int) as int;
    let rows = wrapped_rows(f.value@.take(k), inner_w);
    let caret_row: nat = if rows >= 1 {
        (rows - 1) as nat
    } else {
        0
    };
    if caret_row >= inner_h - 1 {
        (caret_row - (inner_h - 1)) as nat
    } else {
        0
    }
}

/// How far the focused row scrolls.
pub fn form_row_scroll(f: &FormField, w: u16, h: u16) -> (r: u16)
    ensures
        r == row_scroll(*f, w, h),
{
    let inner_w: u16 = if w >= 2 {
        w - 2
    } else {
        0
    };
    let inner_h: u16 = if h >= 3 {
        h - 2
    } else {
        1
    };
    let cs = chars_of(f.value.as_str());
    let k = floor_idx_exec(&cs, f.caret);
    let rows = wrapped_row_count(string_of(&slice(&cs, 0, k)).as_str(), inner_w);
    proof {
        assert(cs@.take(k as int) =~= cs@.subrange(0, k as int));
    }
    let caret_row: u16 = if rows >= 1 {
        rows - 1
    } else {
        0
    };
    if caret_row >= inner_h - 1 {
        caret_row - (inner_h - 1)
    } else {
        0
    }
}

/// The toasts that stay when stale ones are dropped: the errors, in
/// order (their details, such as a failed run's stderr, must not time
/// out).
pub open spec fn error_toasts(ts: Seq<Toast>) -> Seq<Toast>
    decreases ts.len(),
{
    if ts.len() == 0 {
        ts
    } else if ts.last().level == ToastLevel::Error {
        error_toasts(ts.drop_last()).push(ts.last())
    } else {
        error_toasts(ts.drop_last())
    }
}

/// Drops every toast but the errors.
pub fn keep_error_toasts(toasts: &mut Vec<Toast>)
    ensures
        final(toasts)@ == error_toasts(old(toasts)@),
{
    let ghost orig = toasts@;
    let mut kept: Vec<Toast> = Vec::new();
    let mut rest: Vec<Toast> = Vec::new();
    std::mem::swap(&mut rest, toasts);
    let mut i: usize = 0;
    while i < rest.len()
        invariant
            i <= rest.len(),
            rest@ == orig,
            kept@ == error_toasts(orig.take(i as int)),
        decreases rest.len() - i,
    {
        proof {
            assert(orig.take(i + 1).drop_last() =~= orig.take(i as int));
        }
        match rest[i].level {
            ToastLevel::Error => {
                kept.push(Toast { level: ToastLevel::Error, text: rest[i].text.clone() });
            },
            _ => {},
        }
        i = i + 1;
    }
    proof {
        assert(orig.take(orig.len() as int) =~= orig);
    }
    *toasts = kept;
}

/// An overlay (palette, confirmation, form, picker or an editor) is open.
pub open spec fn overlay_open(m: Model) -> bool {
    m.palette_open || m.confirm is Some || m.form is Some || m.picker is Some
        || m.sequence_editor is Some
}

/// What a mouse wheel step means: on the Tasks screen with no overlay
/// open, three lines of prompt preview up or down; elsewhere nothing.
pub open spec fn wheel_msg(m: Model, up: bool) -> Option<Msg> {
    if !overlay_open(m) && m.screen == Screen::Tasks {
        Some(Msg::TaskPromptScroll(if up { -3isize } else { 3isize }))
    } else {
        None
    }
}

/// What a mouse wheel step means.
pub fn mouse_scroll(m: &Model, up: bool) -> (r: Option<Msg>)
    ensures
        r == wheel_msg(*m, up),
{
    let open = m.palette_open || m.confirm.is_some() || m.form.is_some() || m.picker.is_some()
        || m.sequence_editor.is_some();
    if !open && m.screen == Screen::Tasks {
        Some(Msg::TaskPromptScroll(if up { -3 } else { 3 }))
    } else {
        None
    }
}

/// The end of `s` that fits in `max` characters, marked with a leading
/// `…` when cut.
pub open spec fn tail_window(s: Seq<char>, max: nat) -> Seq<char> {
    if max <= 1 {
        seq!['…']
    } else if s.len() <= max {
        s
    } else {
        seq!['…'] + s.skip(s.len() - (max - 1))
    }
}

/// The end of `s` that fits in `max` characters.
pub fn tail_of(s: &str, max: usize) -> (r: String)
    ensures
        r@ == tail_window(s@, max as nat),
{
    let cs = chars_of(s);
    if max <= 1 {
        let v: Vec<char> = vec!['…'];
        proof {
            assert(v@ =~= seq!['…']);
        }
        return string_of(&v);
    }
    if cs.len() <= max {
        return string_of(&cs);
    }
    let mut v: Vec<char> = vec!['…'];
    append(&mut v, &slice(&cs, cs.len() - (max - 1), cs.len()));
    proof {
        assert(v@ =~= tail_window(s@, max as nat));
    }
    string_of(&v)
}

/// How an event is listed in the editor: `from ->> to: text`, a dashed
/// arrow as `-->>`, and `  [ctx]` when it carries non-blank notes.
pub open spec fn event_line(e: SequenceEvent) -> Seq<char> {
    match e {
        SequenceEvent::Message { from, to, dashed, text, edge_context, .. } => {
            let arrow = if dashed {
                "-->>"@
            } else {
                "->>"@
            };
            let marker = match edge_context {
                Some(c) => if trim(c@).len() > 0 {
                    "  [ctx]"@
                } else {
                    Seq::empty()
                },
                None => Seq::empty(),
            };
            from@ + " "@ + arrow + " "@ + to@ + ": "@ + text@ + marker
        },
    }
}

/// How an event is listed in the editor.
pub fn event_summary(e: &SequenceEvent) -> (r: String)
    ensures
        r@ == event_line(*e),
{
    proof {
        reveal_strlit("-->>");
        reveal_strlit("->>");
        reveal_strlit("  [ctx]");
        reveal_strlit(" ");
        reveal_strlit(": ");
    }
    match e {
        SequenceEvent::Message { from, to, dashed, text, edge_context, .. } => {
            let mut v = chars_of(from.as_str());
            append(&mut v, &chars_of(" "));
            if *dashed {
                append(&mut v, &chars_of("-->>"));
            } else {
                append(&mut v, &chars_of("->>"));
            }
            append(&mut v, &chars_of(" "));
            append(&mut v, &chars_of(to.as_str()));
            append(&mut v, &chars_of(": "));
            append(&mut v, &chars_of(text.as_str()));
            match edge_context {
                Some(c) => {
                    if v_trim(&chars_of(c.as_str())).len() > 0 {
                        append(&mut v, &chars_of("  [ctx]"));
                    }
                },
                None => {},
            }
            proof {
                assert(v@ =~= event_line(*e));
            }
            string_of(&v)
        },
    }
}

} // verus!
