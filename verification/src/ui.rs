//! Small pieces of the terminal UI that hold no terminal: screens,
//! toasts, key help, forms, text wrapping and file names.

use vstd::prelude::*;
use crate::fields::{FieldKind, kind_tag};
use crate::form::FormField;
use crate::ids::{TaskId, TemplateId};
use crate::text::{
    append, char_is_ws, chars_of, find, find_exec, is_ws, lemma_find_from_props, occurs_at,
    slice, string_of, trim, trim_ch, v_trim, v_trim_ch,
};

verus! {

/// Top-level screens, in tab order.
#[derive(Clone, Copy, Debug, PartialEq, Eq, Structural)]
pub enum Screen {
    Templates,
    Tasks,
    Info,
    Help,
}

pub open spec fn screen_label(s: Screen) -> Seq<char> {
    match s {
        Screen::Templates => "Templates"@,
        Screen::Tasks => "Tasks"@,
        Screen::Info => "Info"@,
        Screen::Help => "Help"@,
    }
}

impl Screen {
    /// The screens reachable with Tab, in order.
    pub fn tabs() -> (r: Vec<Screen>)
        ensures
            r@ == seq![Screen::Templates, Screen::Tasks, Screen::Info],
    {
        let v = vec![Screen::Templates, Screen::Tasks, Screen::Info];
        proof {
            assert(v@ =~= seq![Screen::Templates, Screen::Tasks, Screen::Info]);
        }
        v
    }

    /// The title of the screen.
    pub fn label(self) -> (r: &'static str)
        ensures
            r@ == screen_label(self),
    {
        match self {
            Screen::Templates => "Templates",
            Screen::Tasks => "Tasks",
            Screen::Info => "Info",
            Screen::Help => "Help",
        }
    }
}

/// How serious a toast is.
#[derive(Clone, Copy, Debug, PartialEq, Eq, Structural)]
pub enum ToastLevel {
    Info,
    Warn,
    Error,
}

/// A short message shown over the footer.
#[derive(Clone, Debug, PartialEq, Eq)]
pub struct Toast {
    pub level: ToastLevel,
    pub text: String,
}

impl Toast {
    pub fn new(level: ToastLevel, text: &str) -> (r: Toast)
        ensures
            r.level == level,
            r.text@ == text@,
    {
        Toast { level, text: text.to_string() }
    }
}

/// One line of key help.
#[derive(Clone, Copy, Debug)]
pub struct KeybindHelp {
    pub key: &'static str,
    pub description: &'static str,
}

/// What submitting a form does.
#[derive(Clone, Copy, Debug, PartialEq, Eq, Structural)]
pub enum FormSubmit {
    CreateTemplate,
    EditTemplate(TemplateId),
    CreateTask(TemplateId),
    EditTask(TaskId),
    SaveTaskPromptToFile(TaskId),
}

/// A form: a title, rows, the focused row and what submitting does.
#[derive(Clone, Debug, PartialEq, Eq)]
pub struct FormState {
    pub title: String,
    pub fields: Vec<FormField>,
    pub cursor: usize,
    pub submit: FormSubmit,
}

/// The label of a template field's form row: its label and its kind.
pub fn format_field_label(label: &str, kind: FieldKind) -> (r: String)
    ensures
        r@ == label@ + " ["@ + kind_tag(kind) + "]"@,
{
    let mut v = chars_of(label);
    append(&mut v, &chars_of(" ["));
    append(&mut v, &chars_of(kind.tag()));
    append(&mut v, &chars_of("]"));
    string_of(&v)
}

/// The pieces of `s` between the `\n`s (`str::split('\n')`).
pub open spec fn split_nl(s: Seq<char>) -> Seq<Seq<char>>
    decreases s.len(),
{
    if let Some(i) = find(s, seq!['\n']) {
        proof {
            lemma_find_from_props(s, seq!['\n'], 0);
        }
        seq![s.take(i)] + split_nl(s.skip(i + 1))
    } else {
        seq![s]
    }
}

/// `c / w`, rounded up.
pub open spec fn div_ceil(c: nat, w: nat) -> nat
    recommends
        w > 0,
{
    if c % w == 0 {
        c / w
    } else {
        c / w + 1
    }
}

/// Rows a line of `c` characters takes at width `w`; a blank line takes one.
pub open spec fn line_rows(c: nat, w: nat) -> nat {
    if c == 0 {
        1
    } else {
        div_ceil(c, w)
    }
}

/// The total rows of the pieces, stopping at the largest `usize`.
pub open spec fn rows_total(ps: Seq<Seq<char>>, w: nat) -> nat
    decreases ps.len(),
{
    if ps.len() == 0 {
        0
    } else {
        let t = rows_total(ps.drop_last(), w) + line_rows(ps.last().len(), w);
        if t > usize::MAX {
            usize::MAX as nat
        } else {
            t
        }
    }
}

/// The rows text takes when wrapped at `width` columns, counting
/// characters: at least one, at most the largest `u16`.
pub open spec fn wrapped_rows(text: Seq<char>, width: nat) -> nat {
    if width == 0 {
        1
    } else {
        let r = rows_total(split_nl(text), width);
        if r < 1 {
            1
        } else if r > u16::MAX {
            u16::MAX as nat
        } else {
            r
        }
    }
}

proof fn lemma_rows_total_bound(ps: Seq<Seq<char>>, w: nat)
    ensures
        rows_total(ps, w) <= usize::MAX,
    decreases ps.len(),
{
    if ps.len() > 0 {
        lemma_rows_total_bound(ps.drop_last(), w);
    }
}

/// The rows `text` takes when wrapped at `width` columns.
pub fn wrapped_row_count(text: &str, width: u16) -> (r: u16)
    ensures
        r == wrapped_rows(text@, width as nat),
{
    if width == 0 {
        return 1;
    }
    let w = width as usize;
    let s = chars_of(text);
    let nl: Vec<char> = vec!['\n'];
    proof {
        assert(nl@ =~= seq!['\n']);
    }
    let mut rest = s.clone();
    let mut rows: usize = 0;
    let ghost done: Seq<Seq<char>> = Seq::empty();
    loop
        invariant_except_break
            split_nl(s@) == done + split_nl(rest@),
        invariant
            nl@ == seq!['\n'],
            w == width as usize,
            w > 0,
            s@ == text@,
            rows == rows_total(done, w as nat),
        ensures
            split_nl(s@) == done,
        decreases rest.len(),
    {
        let piece_len: usize;
        let at_end: bool;
        let ghost piece: Seq<char>;
        match find_exec(&rest, &nl) {
            Some(i) => {
                proof {
                    lemma_find_from_props(rest@, nl@, 0);
                    assert(occurs_at(rest@, nl@, i as int));
                    piece = rest@.take(i as int);
                }
                piece_len = i;
                at_end = false;
            },
            None => {
                proof {
                    piece = rest@;
                }
                piece_len = rest.len();
                at_end = true;
            },
        }
        let this: usize = if piece_len == 0 {
            1
        } else if piece_len % w == 0 {
            piece_len / w
        } else {
            assert(piece_len / w < piece_len) by (nonlinear_arith)
                requires
                    w > 0,
                    piece_len % w != 0,
                    piece_len > 0,
            ;
            piece_len / w + 1
        };
        proof {
            assert(this == line_rows(piece.len(), w as nat));
            lemma_rows_total_bound(done, w as nat);
            assert(done.push(piece).drop_last() =~= done);
        }
        rows = if rows > usize::MAX - this {
            usize::MAX
        } else {
            rows + this
        };
        proof {
            done = done.push(piece);
        }
        if at_end {
            proof {
                assert(split_nl(s@) =~= done);
            }
            break;
        }
        let ghost old_rest = rest@;
        rest = slice(&rest, piece_len + 1, rest.len());
        proof {
            assert(split_nl(old_rest) == seq![piece] + split_nl(rest@));
            assert(split_nl(s@) =~= done + split_nl(rest@));
        }
    }
    if rows < 1 {
        1
    } else if rows > 65535 {
        65535
    } else {
        rows as u16
    }
}

/// The character a file name keeps for `c`: letters, digits, `-`, `_`
/// and `.` stay, whitespace becomes `_`, anything else goes.
pub open spec fn name_char(c: char) -> Option<char> {
    if c == '/' || c == '\\' {
        None
    } else if ('a' <= c && c <= 'z') || ('A' <= c && c <= 'Z') || ('0' <= c && c <= '9') || c
        == '-' || c == '_' || c == '.' {
        Some(c)
    } else if is_ws(c) {
        Some('_')
    } else {
        None
    }
}

pub open spec fn name_chars(s: Seq<char>) -> Seq<char>
    decreases s.len(),
{
    if s.len() == 0 {
        Seq::empty()
    } else {
        name_chars(s.drop_last()) + match name_char(s.last()) {
            Some(c) => seq![c],
            None => Seq::empty(),
        }
    }
}

/// A character a file name may hold: an ASCII letter or digit, `-`, `_`
/// or `.`.
pub open spec fn is_name_char(c: char) -> bool {
    ('a' <= c && c <= 'z') || ('A' <= c && c <= 'Z') || ('0' <= c && c <= '9') || c == '-' || c
        == '_' || c == '.'
}

/// A character a file name may not begin or end with: `.` or `_`.
pub open spec fn is_edge(c: char) -> bool {
    c == '.' || c == '_'
}

/// Number of leading dots and underscores.
pub open spec fn lead_edges(s: Seq<char>) -> nat
    decreases s.len(),
{
    if s.len() > 0 && is_edge(s[0]) {
        1 + lead_edges(s.drop_first())
    } else {
        0
    }
}

/// Number of trailing dots and underscores.
pub open spec fn trail_edges(s: Seq<char>) -> nat
    decreases s.len(),
{
    if s.len() > 0 && is_edge(s.last()) {
        1 + trail_edges(s.drop_last())
    } else {
        0
    }
}

/// `s` without any dots or underscores around it.
pub open spec fn trim_edges(s: Seq<char>) -> Seq<char> {
    let a = s.skip(lead_edges(s) as int);
    a.take(a.len() - trail_edges(a))
}

/// A file name made from user text: kept characters of the trimmed
/// text, without surrounding dots and underscores.
pub open spec fn sanitized(input: Seq<char>) -> Seq<char> {
    let t = trim(input);
    if t.len() == 0 {
        Seq::empty()
    } else {
        trim_edges(name_chars(t))
    }
}

proof fn lemma_lead_edges(s: Seq<char>)
    ensures
        lead_edges(s) <= s.len(),
        lead_edges(s) < s.len() ==> !is_edge(s[lead_edges(s) as int]),
    decreases s.len(),
{
    if s.len() > 0 && is_edge(s[0]) {
        lemma_lead_edges(s.drop_first());
    }
}

proof fn lemma_trail_edges(s: Seq<char>)
    ensures
        trail_edges(s) <= s.len(),
        trail_edges(s) < s.len() ==> !is_edge(s[s.len() - trail_edges(s) - 1]),
        forall|k: int| s.len() - trail_edges(s) <= k < s.len() ==> is_edge(#[trigger] s[k]),
    decreases s.len(),
{
    if s.len() > 0 && is_edge(s.last()) {
        lemma_trail_edges(s.drop_last());
        assert forall|k: int| s.len() - trail_edges(s) <= k < s.len() implies is_edge(#[trigger] s[k]) by {
            if k < s.len() - 1 {
                assert(s.drop_last()[k] == s[k]);
            }
        }
    }
}

proof fn lemma_name_chars_allowed(s: Seq<char>)
    ensures
        forall|k: int| 0 <= k < name_chars(s).len() ==> is_name_char(#[trigger] name_chars(s)[k]),
    decreases s.len(),
{
    if s.len() > 0 {
        lemma_name_chars_allowed(s.drop_last());
        let r = name_chars(s.drop_last());
        let tail: Seq<char> = match name_char(s.last()) {
            Some(c) => seq![c],
            None => Seq::empty(),
        };
        assert(name_chars(s) == r + tail);
        assert forall|k: int| 0 <= k < name_chars(s).len() implies is_name_char(
            #[trigger] name_chars(s)[k],
        ) by {
            if k < r.len() {
                assert(name_chars(s)[k] == r[k]);
            } else {
                assert(name_chars(s)[k] == tail[k - r.len()]);
            }
        }
    }
}

/// A trimmed name holds what the text held, with no dot or underscore at
/// either end.
proof fn lemma_trim_edges(s: Seq<char>)
    ensures
        trim_edges(s).len() > 0 ==> !is_edge(trim_edges(s)[0]) && !is_edge(trim_edges(s).last()),
        forall|k: int|
            0 <= k < trim_edges(s).len() ==> trim_edges(s)[k] == s[k + lead_edges(s)],
{
    lemma_lead_edges(s);
    let a = s.skip(lead_edges(s) as int);
    lemma_trail_edges(a);
    if trim_edges(s).len() > 0 {
        assert(trim_edges(s)[0] == a[0]);
        assert(a[0] == s[lead_edges(s) as int]);
        assert(trim_edges(s).last() == a[a.len() - trail_edges(a) - 1]);
    }
}

fn count_lead_edges(s: &Vec<char>) -> (r: usize)
    ensures
        r == lead_edges(s@),
{
    let mut i: usize = 0;
    proof {
        assert(s@.skip(0) =~= s@);
    }
    while i < s.len() && (s[i] == '.' || s[i] == '_')
        invariant
            i <= s.len(),
            lead_edges(s@) == i + lead_edges(s@.skip(i as int)),
        decreases s.len() - i,
    {
        proof {
            assert(s@.skip(i as int).drop_first() =~= s@.skip(i + 1));
        }
        i = i + 1;
    }
    i
}

fn count_trail_edges(s: &Vec<char>) -> (r: usize)
    ensures
        r == trail_edges(s@),
        r <= s.len(),
{
    let mut j: usize = s.len();
    proof {
        assert(s@.take(s.len() as int) =~= s@);
    }
    while j > 0 && (s[j - 1] == '.' || s[j - 1] == '_')
        invariant
            j <= s.len(),
            trail_edges(s@) == (s.len() - j) + trail_edges(s@.take(j as int)),
        decreases j,
    {
        proof {
            assert(s@.take(j as int).drop_last() =~= s@.take(j - 1));
        }
        j = j - 1;
    }
    s.len() - j
}

/// Makes a safe file name in the current directory from user text: only
/// letters, digits, `-`, `_` and `.`, never beginning or ending with a
/// dot or an underscore (so never a dotfile, never a path).
pub fn sanitize_filename(input: &str) -> (r: String)
    ensures
        r@ == sanitized(input@),
        forall|k: int| 0 <= k < r@.len() ==> is_name_char(#[trigger] r@[k]),
        r@.len() > 0 ==> !is_edge(r@[0]) && !is_edge(r@.last()),
{
    let t = v_trim(&chars_of(input));
    if t.len() == 0 {
        let e = String::new();
        proof {
            assert(e@ =~= Seq::<char>::empty());
        }
        return e;
    }
    let mut out: Vec<char> = Vec::new();
    let mut i: usize = 0;
    while i < t.len()
        invariant
            i <= t.len(),
            out@ == name_chars(t@.take(i as int)),
        decreases t.len() - i,
    {
        let c = t[i];
        proof {
            assert(t@.take(i + 1).drop_last() =~= t@.take(i as int));
        }
        if c == '/' || c == '\\' {
        } else if ('a' <= c && c <= 'z') || ('A' <= c && c <= 'Z') || ('0' <= c && c <= '9') || c
            == '-' || c == '_' || c == '.' {
            out.push(c);
        } else if char_is_ws(c) {
            out.push('_');
        }
        proof {
            assert(out@ =~= name_chars(t@.take(i + 1)));
        }
        i = i + 1;
    }
    proof {
        assert(t@.take(t.len() as int) =~= t@);
        lemma_lead_edges(out@);
        lemma_trim_edges(out@);
        lemma_name_chars_allowed(t@);
    }
    let lo = count_lead_edges(&out);
    let rest = slice(&out, lo, out.len());
    let hi = count_trail_edges(&rest);
    proof {
        assert(rest@ == out@.skip(lo as int));
    }
    let r = slice(&rest, 0, rest.len() - hi);
    proof {
        assert(r@ == trim_edges(out@));
        assert forall|k: int| 0 <= k < r@.len() implies is_name_char(#[trigger] r@[k]) by {
            assert(r@[k] == out@[k + lo]);
        }
    }
    string_of(&r)
}

/// The prompt body used when a template brings none.
pub const CANONICAL: &'static str = "## Context
{{ preamble }}

Project: `{{ project.name }}` at `{{ project.path }}`

## Inputs
{% for id, val in task.fields | items -%}
- **{{ id }}**: {{ val }}
{% endfor %}

## Constraints
{%- if task.fields.constraints is defined %}
{% for c in task.fields.constraints %}- {{ c }}
{% endfor %}
{%- else %}
- _none specified_
{%- endif %}

## Acceptance Criteria
{%- if task.fields.acceptance is defined %}
{% for a in task.fields.acceptance %}- {{ a }}
{% endfor %}
{%- else %}
- _none specified_
{%- endif %}

## Deliverables
{{ task.fields.deliverables | default(\"A minimal, reviewable change.\") }}

## References
{%- if task.fields.references is defined %}
{% for r in task.fields.references %}- {{ r }}
{% endfor %}
{%- else %}
- _none_
{%- endif %}
";

/// The canonical prompt skeleton.
pub fn canonical_template() -> (r: &'static str)
    ensures
        r@ == CANONICAL@,
{
    CANONICAL
}


/// The example `[[fields]]` text a new template's form starts with.
pub open spec fn fields_hint() -> Seq<char> {
    "# one [[fields]] block per field. kinds: textarea, select,\n# multiselect, sequence-gram, code-blocks.\n# Example:\n# [[fields]]\n# id = \"description\"\n# kind = \"textarea\"\n# label = \"What to do\"\n# required = true\n"@
}

/// The example shown in a new template's fields editor.
pub fn default_fields_toml_hint() -> (r: String)
    ensures
        r@ == fields_hint(),
{
    "# one [[fields]] block per field. kinds: textarea, select,\n# multiselect, sequence-gram, code-blocks.\n# Example:\n# [[fields]]\n# id = \"description\"\n# kind = \"textarea\"\n# label = \"What to do\"\n# required = true\n".to_string()
}

} // verus!
