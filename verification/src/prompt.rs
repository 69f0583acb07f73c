//! The scope a prompt body is rendered in, written as JSON text.
//!
//! A prompt body sees a tight, documented set of names:
//!
//! - `task.id`, `task.name`, `task.created_at`, `task.fields.<id>`;
//! - `template.id`, `template.name`, `template.version`;
//! - `derived.<name>`;
//! - `now`.
//!
//! Rendering is a pure function of the template, the task and `now`:
//! no file access and no clock reads (the caller passes `now`).

use vstd::prelude::*;
use crate::entities::{FieldValue, Task, Template};
use crate::ids::{hex_digit, hyphenated};
use crate::num::{dec, fmt_u128};
use crate::text::{append, chars_of, string_of};
use crate::time::{epoch_text, rfc3339_written, Timestamp};
use crate::filters::{
    bullet_items, bullet_items_spec, bullet_lines, bullet_text, code_block, indent, mermaid_fenced,
    prefixed, quote, sequence_gram, spaces, truncate,
};
use crate::text::{copy_string, join, lines};
use crate::ui::{canonical_template, CANONICAL};
use crate::utf8::{byte_len, floor_idx};

verus! {

/// How one character is written inside a JSON string: quotes,
/// backslashes and control characters escaped (short forms where JSON
/// has them, else `\u00XX`), anything else as it is.
pub open spec fn json_char(c: char) -> Seq<char> {
    let u = c as u32;
    if c == '"' {
        seq!['\\', '"']
    } else if c == '\\' {
        seq!['\\', '\\']
    } else if c == '\n' {
        seq!['\\', 'n']
    } else if c == '\r' {
        seq!['\\', 'r']
    } else if c == '\t' {
        seq!['\\', 't']
    } else if u == 8 {
        seq!['\\', 'b']
    } else if u == 12 {
        seq!['\\', 'f']
    } else if u < 0x20 {
        seq!['\\', 'u', '0', '0', hex_digit((u / 16) as nat), hex_digit((u % 16) as nat)]
    } else {
        seq![c]
    }
}

/// The characters of `s`, each written as inside a JSON string.
pub open spec fn json_escaped(s: Seq<char>) -> Seq<char>
    decreases s.len(),
{
    if s.len() == 0 {
        Seq::empty()
    } else {
        json_escaped(s.drop_last()) + json_char(s.last())
    }
}

/// `s` as a JSON string.
pub open spec fn json_string(s: Seq<char>) -> Seq<char> {
    seq!['"'] + json_escaped(s) + seq!['"']
}

fn hex_char(n: u32) -> (r: char)
    requires
        n < 16,
    ensures
        r == hex_digit(n as nat),
{
    if n < 10 {
        ((n + 48) as u8) as char
    } else {
        ((n + 87) as u8) as char
    }
}

fn push_json_char(out: &mut Vec<char>, c: char)
    ensures
        final(out)@ == old(out)@ + json_char(c),
{
    let u = c as u32;
    let ghost before = out@;
    if c == '"' {
        out.push('\\');
        out.push('"');
    } else if c == '\\' {
        out.push('\\');
        out.push('\\');
    } else if c == '\n' {
        out.push('\\');
        out.push('n');
    } else if c == '\r' {
        out.push('\\');
        out.push('r');
    } else if c == '\t' {
        out.push('\\');
        out.push('t');
    } else if u == 8 {
        out.push('\\');
        out.push('b');
    } else if u == 12 {
        out.push('\\');
        out.push('f');
    } else if u < 0x20 {
        out.push('\\');
        out.push('u');
        out.push('0');
        out.push('0');
        out.push(hex_char(u / 16));
        out.push(hex_char(u % 16));
    } else {
        out.push(c);
    }
    proof {
        assert(out@ =~= before + json_char(c));
    }
}

/// Writes `s` as a JSON string at the end of `out`.
fn push_json_string(out: &mut Vec<char>, s: &str)
    ensures
        final(out)@ == old(out)@ + json_string(s@),
{
    let cs = chars_of(s);
    let ghost start = out@;
    out.push('"');
    let mut i: usize = 0;
    while i < cs.len()
        invariant
            i <= cs.len(),
            cs@ == s@,
            out@ == start + seq!['"'] + json_escaped(cs@.take(i as int)),
        decreases cs.len() - i,
    {
        proof {
            assert(cs@.take(i + 1).drop_last() =~= cs@.take(i as int));
            assert(cs@.take(i + 1).last() == cs@[i as int]);
        }
        push_json_char(out, cs[i]);
        proof {
            assert(out@ =~= start + seq!['"'] + json_escaped(cs@.take(i + 1)));
        }
        i = i + 1;
    }
    proof {
        assert(cs@.take(cs@.len() as int) =~= cs@);
    }
    out.push('"');
    proof {
        assert(out@ =~= start + json_string(s@));
    }
}

/// `s` as a JSON string.
pub fn json_quote(s: &str) -> (r: String)
    ensures
        r@ == json_string(s@),
{
    let mut out: Vec<char> = Vec::new();
    push_json_string(&mut out, s);
    proof {
        assert(out@ =~= json_string(s@));
    }
    string_of(&out)
}

/// The members of a JSON object holding `entries`, each key with the
/// JSON text of its value, separated by commas.
pub open spec fn json_members(entries: Seq<(String, FieldValue)>) -> Seq<char>
    decreases entries.len(),
{
    if entries.len() == 0 {
        Seq::empty()
    } else {
        let last = entries.last();
        let member = json_string(last.0@) + seq![':'] + last.1.json@;
        if entries.len() == 1 {
            member
        } else {
            json_members(entries.drop_last()) + seq![','] + member
        }
    }
}

/// A JSON object holding `entries`.
pub open spec fn json_object(entries: Seq<(String, FieldValue)>) -> Seq<char> {
    seq!['{'] + json_members(entries) + seq!['}']
}

fn push_json_object(out: &mut Vec<char>, entries: &Vec<(String, FieldValue)>)
    ensures
        final(out)@ == old(out)@ + json_object(entries@),
{
    let ghost start = out@;
    out.push('{');
    let mut i: usize = 0;
    while i < entries.len()
        invariant
            i <= entries.len(),
            out@ == start + seq!['{'] + json_members(entries@.take(i as int)),
        decreases entries.len() - i,
    {
        proof {
            assert(entries@.take(i + 1).drop_last() =~= entries@.take(i as int));
            assert(entries@.take(i + 1).last() == entries@[i as int]);
        }
        if i > 0 {
            out.push(',');
        }
        push_json_string(out, entries[i].0.as_str());
        out.push(':');
        append(out, &chars_of(entries[i].1.json.as_str()));
        proof {
            assert(out@ =~= start + seq!['{'] + json_members(entries@.take(i + 1)));
        }
        i = i + 1;
    }
    proof {
        assert(entries@.take(entries@.len() as int) =~= entries@);
    }
    out.push('}');
    proof {
        assert(out@ =~= start + json_object(entries@));
    }
}

/// The RFC 3339 text of a timestamp, as `Timestamp::to_rfc3339` writes it.
pub open spec fn rfc3339_of(t: Timestamp) -> Seq<char> {
    match rfc3339_written(t.unix_nanos, t.offset_seconds) {
        Some(s) => s,
        None => epoch_text(),
    }
}

/// The template part of the scope: its id, name and version.
#[derive(Clone, Debug, PartialEq, Eq)]
pub struct TemplateScope {
    pub id: String,
    pub name: String,
    pub version: u32,
}

/// The task part of the scope: its id, name, creation time and values.
#[derive(Clone, Debug, PartialEq, Eq)]
pub struct TaskScope<'a> {
    pub id: String,
    pub name: String,
    pub created_at: String,
    pub fields: &'a Vec<(String, FieldValue)>,
}

impl TemplateScope {
    /// What a prompt body sees of `t`.
    pub fn of(t: &Template) -> (r: TemplateScope)
        ensures
            r.id@ == hyphenated(t.id.0),
            r.name@ == t.name@,
            r.version == t.version,
    {
        TemplateScope { id: t.id.to_string(), name: t.name.clone(), version: t.version }
    }
}

impl<'a> TaskScope<'a> {
    /// What a prompt body sees of `t`.
    pub fn of(t: &'a Task) -> (r: TaskScope<'a>)
        ensures
            r.id@ == hyphenated(t.id.0),
            r.name@ == t.name@,
            r.created_at@ == rfc3339_of(t.created_at),
            r.fields@ == t.fields@,
    {
        TaskScope {
            id: t.id.to_string(),
            name: t.name.clone(),
            created_at: t.created_at.to_rfc3339(),
            fields: &t.fields,
        }
    }
}

/// The scope as JSON text: `task`, `template`, `derived` and `now`.
pub open spec fn scope_json(template: Template, task: Task, now: Timestamp) -> Seq<char> {
    "{\"task\":{\"id\":"@ + json_string(hyphenated(task.id.0)) + ",\"name\":"@ + json_string(
        task.name@,
    ) + ",\"created_at\":"@ + json_string(rfc3339_of(task.created_at)) + ",\"fields\":"@
        + json_object(task.fields@) + "},\"template\":{\"id\":"@ + json_string(
        hyphenated(template.id.0),
    ) + ",\"name\":"@ + json_string(template.name@) + ",\"version\":"@ + dec(
        template.version as nat,
    ) + "},\"derived\":"@ + json_object(task.derived@) + ",\"now\":"@ + json_string(
        rfc3339_of(now),
    ) + "}"@
}

/// The scope `template`'s prompt body is rendered in for `task` at
/// `now`, as JSON text.
pub fn render_scope(template: &Template, task: &Task, now: Timestamp) -> (r: String)
    ensures
        r@ == scope_json(*template, *task, now),
{
    proof {
        reveal_strlit("{\"task\":{\"id\":");
        reveal_strlit(",\"name\":");
        reveal_strlit(",\"created_at\":");
        reveal_strlit(",\"fields\":");
        reveal_strlit("},\"template\":{\"id\":");
        reveal_strlit(",\"version\":");
        reveal_strlit("},\"derived\":");
        reveal_strlit(",\"now\":");
        reveal_strlit("}");
    }
    let ts = TaskScope::of(task);
    let ps = TemplateScope::of(template);
    let now_text = now.to_rfc3339();
    let mut out = chars_of("{\"task\":{\"id\":");
    push_json_string(&mut out, ts.id.as_str());
    append(&mut out, &chars_of(",\"name\":"));
    push_json_string(&mut out, ts.name.as_str());
    append(&mut out, &chars_of(",\"created_at\":"));
    push_json_string(&mut out, ts.created_at.as_str());
    append(&mut out, &chars_of(",\"fields\":"));
    push_json_object(&mut out, ts.fields);
    append(&mut out, &chars_of("},\"template\":{\"id\":"));
    push_json_string(&mut out, ps.id.as_str());
    append(&mut out, &chars_of(",\"name\":"));
    push_json_string(&mut out, ps.name.as_str());
    append(&mut out, &chars_of(",\"version\":"));
    append(&mut out, &fmt_u128(ps.version as u128));
    append(&mut out, &chars_of("},\"derived\":"));
    push_json_object(&mut out, &task.derived);
    append(&mut out, &chars_of(",\"now\":"));
    push_json_string(&mut out, now_text.as_str());
    append(&mut out, &chars_of("}"));
    proof {
        assert(out@ =~= scope_json(*template, *task, now));
    }
    string_of(&out)
}

/// The context `show_if` expressions see, as JSON text: the task's
/// values, the template's id, name and version, and the derived values.
pub open spec fn check_context_json(template: Template, task: Task) -> Seq<char> {
    "{\"task\":{\"fields\":"@ + json_object(task.fields@) + "},\"template\":{\"id\":"@
        + json_string(hyphenated(template.id.0)) + ",\"name\":"@ + json_string(template.name@)
        + ",\"version\":"@ + dec(template.version as nat) + "},\"derived\":"@ + json_object(
        task.derived@,
    ) + "}"@
}

/// The context `show_if` expressions of `template` see for `task`.
pub fn check_context(template: &Template, task: &Task) -> (r: String)
    ensures
        r@ == check_context_json(*template, *task),
{
    proof {
        reveal_strlit("{\"task\":{\"fields\":");
        reveal_strlit("},\"template\":{\"id\":");
        reveal_strlit(",\"name\":");
        reveal_strlit(",\"version\":");
        reveal_strlit("},\"derived\":");
        reveal_strlit("}");
    }
    let ps = TemplateScope::of(template);
    let mut out = chars_of("{\"task\":{\"fields\":");
    push_json_object(&mut out, &task.fields);
    append(&mut out, &chars_of("},\"template\":{\"id\":"));
    push_json_string(&mut out, ps.id.as_str());
    append(&mut out, &chars_of(",\"name\":"));
    push_json_string(&mut out, ps.name.as_str());
    append(&mut out, &chars_of(",\"version\":"));
    append(&mut out, &fmt_u128(ps.version as u128));
    append(&mut out, &chars_of("},\"derived\":"));
    push_json_object(&mut out, &task.derived);
    append(&mut out, &chars_of("}"));
    proof {
        assert(out@ =~= check_context_json(*template, *task));
    }
    string_of(&out)
}

/// The stored form of resolved derived values: a text as a JSON string,
/// nothing as `null`.
pub open spec fn derived_entry(e: (String, Option<String>), v: (String, FieldValue)) -> bool {
    &&& v.0@ == e.0@
    &&& match e.1 {
        Some(s) => v.1.json@ == json_string(s@) && v.1.text == Some(s),
        None => v.1.json@ == "null"@ && v.1.text is None,
    }
}

/// Resolved derived values as the values a task stores.
pub fn derived_field_values(resolved: &Vec<(String, Option<String>)>) -> (r: Vec<(String, FieldValue)>)
    ensures
        r@.len() == resolved@.len(),
        forall|i: int| 0 <= i < r@.len() ==> derived_entry(resolved@[i], #[trigger] r@[i]),
{
    proof {
        reveal_strlit("null");
    }
    let mut out: Vec<(String, FieldValue)> = Vec::new();
    let mut i: usize = 0;
    while i < resolved.len()
        invariant
            i <= resolved.len(),
            out@.len() == i,
            forall|j: int| 0 <= j < i ==> derived_entry(resolved@[j], #[trigger] out@[j]),
        decreases resolved.len() - i,
    {
        let v = match &resolved[i].1 {
            Some(s) => FieldValue { json: json_quote(s.as_str()), text: Some(s.clone()) },
            None => FieldValue { json: "null".to_string(), text: None },
        };
        out.push((resolved[i].0.clone(), v));
        i = i + 1;
    }
    out
}

// ---------------------------------------------------------------------
// Rendering with MiniJinja.

#[verifier::external_type_specification]
#[verifier::external_body]
pub struct ExTemplateValue(minijinja::Value);

#[verifier::external_type_specification]
#[verifier::external_body]
pub struct ExTemplateError(minijinja::Error);

#[verifier::external_type_specification]
#[verifier::external_body]
pub struct ExTemplateKwargs(minijinja::value::Kwargs);

/// `minijinja::Error::new` with the kind `InvalidOperation`: a filter's
/// failure carrying `msg`.
#[verifier::external_body]
fn filter_error(msg: String) -> (r: minijinja::Error) {
    minijinja::Error::new(minijinja::ErrorKind::InvalidOperation, msg)
}

/// What the `bullet` filter is given, as plain values: a string, the
/// items of a value that can be iterated (each as text), or any other
/// value as text.
pub enum FilterArg {
    Text(String),
    Items(Vec<String>),
    Other(String),
}

/// Tells the kinds of a MiniJinja value apart: `Value::as_str` for a
/// string, else `Value::try_iter` for one that iterates (each item as
/// `as_str`, or its display text), else its display text.
#[verifier::external_body]
fn filter_arg(v: &minijinja::Value) -> (r: FilterArg) {
    if let Some(t) = v.as_str() {
        FilterArg::Text(t.to_string())
    } else if let Ok(it) = v.try_iter() {
        FilterArg::Items(it.map(|x| x.as_str().map_or_else(|| x.to_string(), String::from)).collect())
    } else {
        FilterArg::Other(v.to_string())
    }
}

/// The `bullet` filter: a string's non-blank lines as bullets, each
/// item of a list as a bullet, anything else as one bullet.
pub fn bullet_of(a: &FilterArg) -> (r: String)
    ensures
        match a {
            FilterArg::Text(t) => r@ == join(bullet_lines(lines(t@)), "\n"@),
            FilterArg::Items(xs) => r@ == join(
                bullet_items_spec(xs@.map_values(|x: String| x@)),
                "\n"@,
            ),
            FilterArg::Other(t) => r@ == join(bullet_items_spec(seq![t@]), "\n"@),
        },
{
    match a {
        FilterArg::Text(t) => bullet_text(t.as_str()),
        FilterArg::Items(xs) => bullet_items(xs),
        FilterArg::Other(t) => {
            let one = vec![copy_string(t)];
            proof {
                assert(one@.map_values(|x: String| x@) =~= seq![t@]);
            }
            bullet_items(&one)
        },
    }
}

/// The keywords the `code_block` filter is given, as plain values: the
/// `lang` keyword, if given, and the error for any other keyword.
pub struct BlockKeywords {
    pub lang: Option<String>,
    pub extra: Option<minijinja::Error>,
}

/// Reads the keywords of a `code_block` call: `Kwargs::get` of the
/// optional `lang` (an error when it cannot be read as text), then
/// `Kwargs::assert_all_used`, whose error, if any, is kept.
#[verifier::external_body]
fn block_keywords(kw: &minijinja::value::Kwargs) -> (r: Result<BlockKeywords, minijinja::Error>) {
    let lang = kw.get::<Option<String>>("lang")?;
    Ok(BlockKeywords { lang, extra: kw.assert_all_used().err() })
}

/// The `indent` filter: each line with `n` spaces before it; refused for
/// a negative width.
pub fn indent_filter(s: String, n: i64) -> (r: Result<String, minijinja::Error>)
    ensures
        n < 0 || n > usize::MAX ==> r is Err,
        0 <= n <= usize::MAX ==> (r matches Ok(t) && t@ == join(
            prefixed(lines(s@), spaces(n as nat)),
            "\n"@,
        )),
{
    match indent(s.as_str(), n) {
        Ok(t) => Ok(t),
        Err(e) => Err(filter_error(e)),
    }
}

/// The `code_block` filter: the text in a fence, tagged with the
/// keyword `lang` when given; refused when another keyword was given.
pub fn code_block_of(s: &str, k: BlockKeywords) -> (r: Result<String, minijinja::Error>)
    ensures
        match k.extra {
            Some(e) => r == Err::<String, minijinja::Error>(e),
            None => r matches Ok(t) && t@ == "```"@ + match k.lang {
                Some(l) => l@,
                None => Seq::<char>::empty(),
            } + "\n"@ + s@ + "\n```"@,
        },
{
    match k.extra {
        Some(e) => Err(e),
        None => {
            let lang = match k.lang {
                Some(l) => l,
                None => String::new(),
            };
            Ok(code_block(s, lang.as_str()))
        },
    }
}

/// The `quote` filter: each line after `> `.
pub fn quote_filter(s: String) -> (r: String)
    ensures
        r@ == join(prefixed(lines(s@), "> "@), "\n"@),
{
    quote(s.as_str())
}

/// The `truncate` filter: at most `n` bytes of the text, cut on a
/// character boundary and marked with `...` when cut; refused for a
/// negative length.
pub fn truncate_filter(s: String, n: i64) -> (r: Result<String, minijinja::Error>)
    ensures
        n < 0 || n > usize::MAX ==> r is Err,
        0 <= n <= usize::MAX ==> (r matches Ok(t) && t@ == if byte_len(s@) <= n {
            s@
        } else {
            s@.take(floor_idx(s@, n as int) as int) + "..."@
        }),
{
    match truncate(s.as_str(), n) {
        Ok(t) => Ok(t),
        Err(e) => Err(filter_error(e)),
    }
}

/// The `sequence_gram` filter: the diagram in a Mermaid fence.
pub fn sequence_gram_filter(s: String) -> (r: String)
    ensures
        r@ == mermaid_fenced(s@),
{
    sequence_gram(s.as_str())
}

/// What MiniJinja renders of the prompt body `body` over the scope
/// written as the JSON text `scope`, strict about undefined names and
/// with the library's filters; an error as its display text.
pub uninterp spec fn rendered_prompt(body: Seq<char>, scope: Seq<char>) -> Result<
    Seq<char>,
    Seq<char>,
>;

/// Renders `body` with a MiniJinja `Environment` in strict undefined
/// mode with the library's filters (`render_str`), over the scope read
/// from the JSON text `scope_json` (`serde_json::from_str`); errors as
/// their display text. The result is whatever the crates make of these
/// arguments.
#[verifier::external_body]
fn minijinja_render(body: &str, scope_json: &str) -> (r: Result<String, String>)
    ensures
        match r {
            Ok(s) => rendered_prompt(body@, scope_json@) matches Ok(t) && t == s@,
            Err(e) => rendered_prompt(body@, scope_json@) matches Err(m) && m == e@,
        },
{
    let mut env = minijinja::Environment::new();
    env.set_undefined_behavior(minijinja::UndefinedBehavior::Strict);
    env.add_filter("bullet", |v: minijinja::Value| bullet_of(&filter_arg(&v)));
    env.add_filter("indent", indent_filter);
    env.add_filter("code_block", |s: String, kw: minijinja::value::Kwargs| {
        block_keywords(&kw).and_then(|k| code_block_of(&s, k))
    });
    env.add_filter("quote", quote_filter);
    env.add_filter("truncate", truncate_filter);
    env.add_filter("sequence_gram", sequence_gram_filter);
    let scope: serde_json::Value = serde_json::from_str(scope_json).map_err(|e| e.to_string())?;
    env.render_str(body, scope).map_err(|e| e.to_string())
}

/// The prompt body of `template`: its own, or the canonical skeleton
/// when it brings none.
pub open spec fn prompt_body(template: Template) -> Seq<char> {
    match template.prompt.template {
        Some(b) => b@,
        None => CANONICAL@,
    }
}

/// The prompt of `template` for `task` at `now`: its body rendered over
/// the scope `render_scope` writes. An undefined name, a bad template or
/// a failing filter is an error, with its text.
pub fn render(template: &Template, task: &Task, now: Timestamp) -> (r: Result<String, String>)
    ensures
        match r {
            Ok(s) => rendered_prompt(prompt_body(*template), scope_json(*template, *task, now))
                matches Ok(t) && t == s@,
            Err(e) => rendered_prompt(prompt_body(*template), scope_json(*template, *task, now))
                matches Err(m) && m == e@,
        },
{
    let scope = render_scope(template, task, now);
    match &template.prompt.template {
        Some(b) => minijinja_render(b.as_str(), scope.as_str()),
        None => minijinja_render(canonical_template(), scope.as_str()),
    }
}

} // verus!
