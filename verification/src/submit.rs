//! The checks a submitted form goes through before anything is saved:
//! the value each template row holds, and the file a prompt is written
//! to.

use vstd::prelude::*;
use crate::fields::FieldKind;
use crate::form::FormField;
use crate::agents::{lemma_lt_total, lemma_lt_trans};
use crate::entities::{FieldValue, PromptSpec, Template};
use crate::fields::Field;
use crate::time::Timestamp;
use crate::openapi::{text_lt, text_lt_exec};
use crate::openapi_editor::{enum_values_exec, enum_values_of, strings_of};
use crate::prompt::{json_quote, json_string};
use crate::text::{
    append, chars_of, copy_string, ends_with, eq, has_prefix, has_suffix, lines, lines_exec,
    starts_with, string_of, trim, trim_start, v_trim, v_trim_start,
};
use crate::ui::{FormState, sanitize_filename, sanitized};

verus! {

/// A typed-in value: text, or the items of a multi-select.
#[derive(Clone, Debug, PartialEq, Eq)]
pub enum Typed {
    Text(String),
    List(Vec<String>),
}

/// `Typed` as plain values.
pub enum TypedV {
    Text(Seq<char>),
    List(Seq<Seq<char>>),
}

impl View for Typed {
    type V = TypedV;

    open spec fn view(&self) -> TypedV {
        match self {
            Typed::Text(s) => TypedV::Text(s@),
            Typed::List(v) => TypedV::List(strings_of(v@)),
        }
    }
}

/// What a row of `kind` holding `raw` stores: nothing for blank text
/// (refused when required); for a multi-select, the comma-separated
/// items, trimmed, without blank ones; otherwise the text as typed.
pub open spec fn field_value_of(kind: FieldKind, raw: Seq<char>, required: bool) -> Result<
    Option<TypedV>,
    Seq<char>,
> {
    if trim(raw).len() == 0 {
        if required {
            Err("required"@)
        } else {
            Ok(None)
        }
    } else if kind == FieldKind::Multiselect {
        Ok(Some(TypedV::List(enum_values_of(trim(raw)))))
    } else {
        Ok(Some(TypedV::Text(raw)))
    }
}

/// A blank row stores nothing, and is refused as required when its field
/// is required; a row with text stores that text exactly as typed,
/// untrimmed, unless its field is a multi-select, which stores the list
/// of its comma-separated items.
pub proof fn lemma_row_value(kind: FieldKind, raw: Seq<char>, required: bool)
    ensures
        trim(raw).len() == 0 && required ==> field_value_of(kind, raw, required) == Err::<
            Option<TypedV>,
            Seq<char>,
        >("required"@),
        trim(raw).len() == 0 && !required ==> field_value_of(kind, raw, required) == Ok::<
            Option<TypedV>,
            Seq<char>,
        >(None),
        trim(raw).len() > 0 && kind != FieldKind::Multiselect ==> field_value_of(
            kind,
            raw,
            required,
        ) == Ok::<Option<TypedV>, Seq<char>>(Some(TypedV::Text(raw))),
        trim(raw).len() > 0 && kind == FieldKind::Multiselect ==> field_value_of(
            kind,
            raw,
            required,
        ) == Ok::<Option<TypedV>, Seq<char>>(Some(TypedV::List(enum_values_of(trim(raw))))),
{
}

/// The value a row of `kind` holding `raw` stores.
pub fn parse_field_value(kind: FieldKind, raw: &str, required: bool) -> (r: Result<
    Option<Typed>,
    String,
>)
    ensures
        match (r, field_value_of(kind, raw@, required)) {
            (Ok(None), Ok(None)) => true,
            (Ok(Some(t)), Ok(Some(w))) => t@ == w,
            (Err(e), Err(w)) => e@ == w,
            _ => false,
        },
{
    let t = v_trim(&chars_of(raw));
    if t.len() == 0 {
        if required {
            proof {
                reveal_strlit("required");
            }
            return Err("required".to_string());
        }
        return Ok(None);
    }
    if kind == FieldKind::Multiselect {
        Ok(Some(Typed::List(enum_values_exec(&string_of(&t)))))
    } else {
        Ok(Some(Typed::Text(raw.to_string())))
    }
}

/// The values of rows `1..n` that carry a field id, in row order; or
/// the first refused row and why.
pub open spec fn collected(rows: Seq<FormField>, n: int) -> Result<
    Seq<(Seq<char>, TypedV)>,
    (int, Seq<char>),
>
    decreases n,
{
    if n <= 1 {
        Ok(Seq::empty())
    } else {
        match collected(rows, n - 1) {
            Err(e) => Err(e),
            Ok(vs) => {
                let f = rows[n - 1];
                match f.field_id {
                    None => Ok(vs),
                    Some(id) => {
                        let kind = match f.kind {
                            Some(k) => k,
                            None => FieldKind::Textarea,
                        };
                        match field_value_of(kind, f.value@, f.required) {
                            Ok(None) => Ok(vs),
                            Ok(Some(v)) => Ok(vs.push((id@, v))),
                            Err(e) => Err((n - 1, "field `"@ + f.label@ + "`: "@ + e)),
                        }
                    },
                }
            },
        }
    }
}

pub open spec fn entries_view(es: Seq<(String, Typed)>) -> Seq<(Seq<char>, TypedV)> {
    es.map_values(|e: (String, Typed)| (e.0@, e.1@))
}

proof fn lemma_collected_err_stays(rows: Seq<FormField>, i: int, n: int)
    requires
        i <= n,
        collected(rows, i) is Err,
    ensures
        collected(rows, n) == collected(rows, i),
    decreases n - i,
{
    if n > i {
        lemma_collected_err_stays(rows, i, n - 1);
    }
}

/// The values the form's template rows hold (the first row, the name,
/// is not one of them), in row order; or the index of the first refused
/// row and the message that says why.
pub fn collect_values(form: &FormState) -> (r: Result<Vec<(String, Typed)>, (usize, String)>)
    ensures
        match (r, collected(form.fields@, form.fields@.len() as int)) {
            (Ok(vs), Ok(w)) => entries_view(vs@) == w,
            (Err((i, m)), Err((j, w))) => i == j && m@ == w,
            _ => false,
        },
{
    let mut out: Vec<(String, Typed)> = Vec::new();
    let mut i: usize = 1;
    proof {
        assert(entries_view(out@) =~= Seq::<(Seq<char>, TypedV)>::empty());
    }
    if form.fields.len() <= 1 {
        return Ok(out);
    }
    while i < form.fields.len()
        invariant
            1 <= i <= form.fields.len(),
            collected(form.fields@, i as int) == Ok::<Seq<(Seq<char>, TypedV)>, (int, Seq<char>)>(
                entries_view(out@),
            ),
        decreases form.fields.len() - i,
    {
        let f = &form.fields[i];
        match &f.field_id {
            None => {},
            Some(id) => {
                let kind = match f.kind {
                    Some(k) => k,
                    None => FieldKind::Textarea,
                };
                match parse_field_value(kind, f.value.as_str(), f.required) {
                    Ok(None) => {},
                    Ok(Some(v)) => {
                        let ghost before = entries_view(out@);
                        let ghost vv = v@;
                        out.push((copy_string(id), v));
                        proof {
                            assert(entries_view(out@) =~= before.push((id@, vv)));
                        }
                    },
                    Err(e) => {
                        proof {
                            reveal_strlit("field `");
                            reveal_strlit("`: ");
                        }
                        let mut m = chars_of("field `");
                        append(&mut m, &chars_of(f.label.as_str()));
                        append(&mut m, &chars_of("`: "));
                        append(&mut m, &chars_of(e.as_str()));
                        proof {
                            lemma_collected_err_stays(form.fields@, i + 1, form.fields@.len() as int);
                        }
                        return Err((i, string_of(&m)));
                    },
                }
            },
        }
        i = i + 1;
    }
    Ok(out)
}

/// The file a prompt is written to for the typed name: the name made
/// safe, with `.md` added unless it ends so; none when nothing is left.
pub open spec fn prompt_file(raw: Seq<char>) -> Option<Seq<char>> {
    let stem = sanitized(raw);
    if stem.len() == 0 {
        None
    } else if has_suffix(stem, ".md"@) {
        Some(stem)
    } else {
        Some(stem + ".md"@)
    }
}

/// A prompt file name, when there is one, always ends in `.md`: the safe
/// form of the typed name, with `.md` added unless it already ends so;
/// there is none exactly when nothing safe is left of the name.
pub proof fn lemma_prompt_file_md(raw: Seq<char>)
    ensures
        prompt_file(raw) is None <==> sanitized(raw).len() == 0,
        prompt_file(raw) matches Some(f) ==> has_suffix(f, ".md"@),
        prompt_file(raw) matches Some(f) ==> f == sanitized(raw) || f == sanitized(raw) + ".md"@,
{
    let stem = sanitized(raw);
    if stem.len() > 0 && !has_suffix(stem, ".md"@) {
        let f = stem + ".md"@;
        assert(f.skip(f.len() - ".md"@.len()) =~= ".md"@);
    }
}

/// The file a prompt is written to for the typed name.
pub fn prompt_file_name(raw: &str) -> (r: Option<String>)
    ensures
        match (r, prompt_file(raw@)) {
            (Some(s), Some(w)) => s@ == w,
            (None, None) => true,
            _ => false,
        },
{
    let stem = sanitize_filename(raw);
    let cs = chars_of(stem.as_str());
    if cs.len() == 0 {
        return None;
    }
    proof {
        reveal_strlit(".md");
    }
    if ends_with(&cs, &chars_of(".md")) {
        Some(stem)
    } else {
        let mut v = cs;
        append(&mut v, &chars_of(".md"));
        Some(string_of(&v))
    }
}

/// The text of row `i` of a form; empty when there is no such row.
pub open spec fn row_text(form: FormState, i: int) -> Seq<char> {
    if 0 <= i < form.fields@.len() {
        form.fields@[i].value@
    } else {
        Seq::empty()
    }
}

fn row_text_exec(form: &FormState, i: usize) -> (r: String)
    ensures
        r@ == row_text(*form, i as int),
{
    if i < form.fields.len() {
        form.fields[i].value.clone()
    } else {
        String::new()
    }
}

/// A new template's form (name, fields TOML, prompt body) as typed, or
/// why it is refused: a blank name, then a blank prompt body.
pub open spec fn template_form_checked(form: FormState) -> Result<
    (Seq<char>, Seq<char>, Seq<char>),
    Seq<char>,
> {
    if trim(row_text(form, 0)).len() == 0 {
        Err("name is required"@)
    } else if trim(row_text(form, 2)).len() == 0 {
        Err("prompt jinja is required"@)
    } else {
        Ok((row_text(form, 0), row_text(form, 1), row_text(form, 2)))
    }
}

/// A new template's form is refused while its name row is blank, and
/// then while its prompt body row is blank; otherwise its name, fields and
/// prompt rows are taken exactly as typed.
pub proof fn lemma_template_form_rows(form: FormState)
    ensures
        trim(row_text(form, 0)).len() == 0 ==> template_form_checked(form) == Err::<
            (Seq<char>, Seq<char>, Seq<char>),
            Seq<char>,
        >("name is required"@),
        trim(row_text(form, 0)).len() > 0 && trim(row_text(form, 2)).len() == 0
            ==> template_form_checked(form) == Err::<(Seq<char>, Seq<char>, Seq<char>), Seq<char>>(
            "prompt jinja is required"@,
        ),
        trim(row_text(form, 0)).len() > 0 && trim(row_text(form, 2)).len() > 0
            ==> template_form_checked(form) == Ok::<(Seq<char>, Seq<char>, Seq<char>), Seq<char>>(
            (form.fields@[0].value@, form.fields@[1].value@, form.fields@[2].value@),
        ),
{
}

/// The name, fields TOML and prompt body of a new template's form, or
/// why it is refused.
pub fn check_template_form(form: &FormState) -> (r: Result<(String, String, String), String>)
    ensures
        match (r, template_form_checked(*form)) {
            (Ok((a, b, c)), Ok((x, y, z))) => a@ == x && b@ == y && c@ == z,
            (Err(m), Err(w)) => m@ == w,
            _ => false,
        },
{
    proof {
        reveal_strlit("name is required");
        reveal_strlit("prompt jinja is required");
    }
    let name = row_text_exec(form, 0);
    let fields_src = row_text_exec(form, 1);
    let jinja = row_text_exec(form, 2);
    if v_trim(&chars_of(name.as_str())).len() == 0 {
        return Err("name is required".to_string());
    }
    if v_trim(&chars_of(jinja.as_str())).len() == 0 {
        return Err("prompt jinja is required".to_string());
    }
    Ok((name, fields_src, jinja))
}

/// A task's form (name and values) as typed, or the row to put the
/// cursor on and the warning: a blank name first, then the first
/// refused value.
pub open spec fn task_form_checked(form: FormState) -> Result<
    (Seq<char>, Seq<(Seq<char>, TypedV)>),
    (int, Seq<char>),
> {
    if trim(row_text(form, 0)).len() == 0 {
        Err((0, "name is required"@))
    } else {
        match collected(form.fields@, form.fields@.len() as int) {
            Ok(vs) => Ok((row_text(form, 0), vs)),
            Err(e) => Err(e),
        }
    }
}

/// The name and values of a task's form, or where and why it is refused.
pub fn check_task_form(form: &FormState) -> (r: Result<(String, Vec<(String, Typed)>), (usize, String)>)
    ensures
        match (r, task_form_checked(*form)) {
            (Ok((n, vs)), Ok((w, ws))) => n@ == w && entries_view(vs@) == ws,
            (Err((i, m)), Err((j, w))) => i == j && m@ == w,
            _ => false,
        },
{
    proof {
        reveal_strlit("name is required");
    }
    let name = row_text_exec(form, 0);
    if v_trim(&chars_of(name.as_str())).len() == 0 {
        return Err((0, "name is required".to_string()));
    }
    match collect_values(form) {
        Ok(vs) => Ok((name, vs)),
        Err(e) => Err(e),
    }
}

/// The JSON items of a list of texts, comma-separated.
pub open spec fn json_items(items: Seq<Seq<char>>) -> Seq<char>
    decreases items.len(),
{
    if items.len() == 0 {
        Seq::empty()
    } else if items.len() == 1 {
        json_string(items[0])
    } else {
        json_items(items.drop_last()) + seq![','] + json_string(items.last())
    }
}

/// How a typed-in value is stored: its JSON text, and the text itself
/// for a text value.
pub open spec fn stored(t: TypedV) -> (Seq<char>, Option<Seq<char>>) {
    match t {
        TypedV::Text(s) => (json_string(s), Some(s)),
        TypedV::List(items) => (seq!['['] + json_items(items) + seq![']'], None),
    }
}

/// A stored value as plain values.
pub open spec fn value_view(v: FieldValue) -> (Seq<char>, Option<Seq<char>>) {
    (
        v.json@,
        match v.text {
            Some(t) => Some(t@),
            None => None,
        },
    )
}

/// How a typed-in value is stored.
pub fn stored_value(t: &Typed) -> (r: FieldValue)
    ensures
        value_view(r) == stored(t@),
{
    match t {
        Typed::Text(s) => FieldValue { json: json_quote(s.as_str()), text: Some(s.clone()) },
        Typed::List(items) => {
            let mut out: Vec<char> = vec!['['];
            let mut i: usize = 0;
            proof {
                assert(strings_of(items@).take(0) =~= Seq::<Seq<char>>::empty());
                assert(out@ =~= seq!['['] + json_items(strings_of(items@).take(0)));
            }
            while i < items.len()
                invariant
                    i <= items.len(),
                    out@ == seq!['['] + json_items(strings_of(items@).take(i as int)),
                decreases items.len() - i,
            {
                proof {
                    let t = strings_of(items@);
                    assert(t.take(i + 1).drop_last() =~= t.take(i as int));
                    assert(t.take(i + 1).last() == items@[i as int]@);
                }
                if i > 0 {
                    out.push(',');
                }
                append(&mut out, &chars_of(json_quote(items[i].as_str()).as_str()));
                proof {
                    assert(out@ =~= seq!['['] + json_items(strings_of(items@).take(i + 1)));
                }
                i = i + 1;
            }
            out.push(']');
            proof {
                assert(strings_of(items@).take(items@.len() as int) =~= strings_of(items@));
                assert(out@ =~= seq!['['] + json_items(strings_of(items@)) + seq![']']);
            }
            FieldValue { json: string_of(&out), text: None }
        },
    }
}

/// `s` with `v` stored under `k`: an entry for `k` is replaced, else
/// one is put in code-point order of the keys.
pub open spec fn map_put<V>(s: Seq<(Seq<char>, V)>, k: Seq<char>, v: V) -> Seq<(Seq<char>, V)>
    decreases s.len(),
{
    if s.len() == 0 {
        seq![(k, v)]
    } else if s[0].0 == k {
        seq![(k, v)] + s.drop_first()
    } else if text_lt(k, s[0].0) {
        seq![(k, v)] + s
    } else {
        seq![s[0]] + map_put(s.drop_first(), k, v)
    }
}

/// Values stored in order, each under its id: a later value for an id
/// replaces an earlier one, and the ids come out in order.
pub open spec fn stored_fields(vs: Seq<(Seq<char>, TypedV)>) -> Seq<
    (Seq<char>, (Seq<char>, Option<Seq<char>>)),
>
    decreases vs.len(),
{
    if vs.len() == 0 {
        Seq::empty()
    } else {
        map_put(stored_fields(vs.drop_last()), vs.last().0, stored(vs.last().1))
    }
}

/// Stored entries as plain values.
pub open spec fn fields_view(s: Seq<(String, FieldValue)>) -> Seq<
    (Seq<char>, (Seq<char>, Option<Seq<char>>)),
> {
    s.map_values(|e: (String, FieldValue)| (e.0@, value_view(e.1)))
}

/// The keys are in strictly increasing code-point order.
pub open spec fn keys_ordered<V>(s: Seq<(Seq<char>, V)>) -> bool {
    forall|i: int, j: int| 0 <= i < j < s.len() ==> text_lt(s[i].0, s[j].0)
}

proof fn lemma_map_put_ordered<V>(s: Seq<(Seq<char>, V)>, k: Seq<char>, v: V)
    requires
        keys_ordered(s),
    ensures
        keys_ordered(map_put(s, k, v)),
        map_put(s, k, v).len() > 0,
        map_put(s, k, v)[0].0 == k || (s.len() > 0 && map_put(s, k, v)[0].0 == s[0].0),
        forall|i: int|
            0 <= i < map_put(s, k, v).len() ==> #[trigger] map_put(s, k, v)[i].0 == k || exists|
                j: int,
            | 0 <= j < s.len() && s[j].0 == map_put(s, k, v)[i].0,
    decreases s.len(),
{
    let r = map_put(s, k, v);
    if s.len() == 0 {
    } else if s[0].0 == k {
        assert forall|i: int, j: int| 0 <= i < j < r.len() implies text_lt(r[i].0, r[j].0) by {
            assert(r[j] == s[j]);
            if i > 0 {
                assert(r[i] == s[i]);
            }
        }
        assert forall|i: int| 0 <= i < r.len() implies #[trigger] r[i].0 == k || exists|j: int|
            0 <= j < s.len() && s[j].0 == r[i].0 by {
            if i > 0 {
                assert(r[i] == s[i]);
            }
        }
    } else if text_lt(k, s[0].0) {
        assert forall|i: int, j: int| 0 <= i < j < r.len() implies text_lt(r[i].0, r[j].0) by {
            assert(r[j] == s[j - 1]);
            if i == 0 {
                if j > 1 {
                    lemma_lt_trans(k, s[0].0, s[j - 1].0);
                }
            } else {
                assert(r[i] == s[i - 1]);
            }
        }
        assert forall|i: int| 0 <= i < r.len() implies #[trigger] r[i].0 == k || exists|j: int|
            0 <= j < s.len() && s[j].0 == r[i].0 by {
            if i > 0 {
                assert(r[i] == s[i - 1]);
            }
        }
    } else {
        let t = s.drop_first();
        assert(keys_ordered(t)) by {
            assert forall|i: int, j: int| 0 <= i < j < t.len() implies text_lt(t[i].0, t[j].0) by {
                assert(t[i] == s[i + 1] && t[j] == s[j + 1]);
            }
        }
        lemma_map_put_ordered(t, k, v);
        let rt = map_put(t, k, v);
        lemma_lt_total(k, s[0].0);
        assert forall|i: int, j: int| 0 <= i < j < r.len() implies text_lt(r[i].0, r[j].0) by {
            if i == 0 {
                assert(r[j] == rt[j - 1]);
                if rt[j - 1].0 == k {
                } else {
                    let m = choose|m: int| 0 <= m < t.len() && t[m].0 == rt[j - 1].0;
                    assert(s[m + 1].0 == rt[j - 1].0);
                }
            } else {
                assert(r[i] == rt[i - 1] && r[j] == rt[j - 1]);
            }
        }
        assert forall|i: int| 0 <= i < r.len() implies #[trigger] r[i].0 == k || exists|j: int|
            0 <= j < s.len() && s[j].0 == r[i].0 by {
            if i > 0 {
                assert(r[i] == rt[i - 1]);
                if rt[i - 1].0 != k {
                    let m = choose|m: int| 0 <= m < t.len() && t[m].0 == rt[i - 1].0;
                    assert(s[m + 1].0 == r[i].0);
                }
            } else {
                assert(s[0].0 == r[0].0);
            }
        }
    }
}

/// The stored values of a task come out with their ids in order, each
/// id once.
pub proof fn lemma_stored_fields_ordered(vs: Seq<(Seq<char>, TypedV)>)
    ensures
        keys_ordered(stored_fields(vs)),
    decreases vs.len(),
{
    if vs.len() > 0 {
        lemma_stored_fields_ordered(vs.drop_last());
        lemma_map_put_ordered(stored_fields(vs.drop_last()), vs.last().0, stored(vs.last().1));
    }
}

fn field_put_exec(acc: &mut Vec<(String, FieldValue)>, k: &String, v: FieldValue)
    ensures
        fields_view(final(acc)@) == map_put(fields_view(old(acc)@), k@, value_view(v)),
{
    let ghost a = fields_view(acc@);
    let ghost vv = value_view(v);
    let kc = chars_of(k.as_str());
    let mut i: usize = 0;
    proof {
        assert(a.skip(0) =~= a);
        assert(a.take(0) + map_put(a.skip(0), k@, vv) =~= map_put(a, k@, vv));
    }
    while i < acc.len()
        invariant
            i <= acc.len(),
            kc@ == k@,
            a == fields_view(acc@),
            a == fields_view(old(acc)@),
            vv == value_view(v),
            map_put(a, k@, vv) == a.take(i as int) + map_put(a.skip(i as int), k@, vv),
        decreases acc.len() - i,
    {
        proof {
            assert(a.skip(i as int).drop_first() =~= a.skip(i + 1));
            assert(a.skip(i as int)[0] == a[i as int]);
        }
        let ic = chars_of(acc[i].0.as_str());
        if eq(&ic, &kc) {
            acc.set(i, (copy_string(k), v));
            proof {
                assert(fields_view(acc@) =~= a.take(i as int) + (seq![(k@, vv)] + a.skip(
                    i as int,
                ).drop_first()));
            }
            return;
        }
        if text_lt_exec(&kc, &ic) {
            acc.insert(i, (copy_string(k), v));
            proof {
                assert(fields_view(acc@) =~= a.take(i as int) + (seq![(k@, vv)] + a.skip(
                    i as int,
                )));
            }
            return;
        }
        proof {
            assert(a.take(i as int) + (seq![a.skip(i as int)[0]] + map_put(
                a.skip(i + 1),
                k@,
                vv,
            )) =~= a.take(i + 1) + map_put(a.skip(i + 1), k@, vv));
        }
        i = i + 1;
    }
    acc.push((copy_string(k), v));
    proof {
        assert(a.take(i as int) =~= a);
        assert(a.skip(i as int) =~= Seq::<(Seq<char>, (Seq<char>, Option<Seq<char>>))>::empty());
        assert(fields_view(acc@) =~= a + seq![(k@, vv)]);
    }
}

/// The values a task stores for the typed-in values: each under its
/// id, in id order, a later value for an id replacing an earlier one.
pub fn task_fields(values: &Vec<(String, Typed)>) -> (r: Vec<(String, FieldValue)>)
    ensures
        fields_view(r@) == stored_fields(entries_view(values@)),
        keys_ordered(fields_view(r@)),
{
    let mut out: Vec<(String, FieldValue)> = Vec::new();
    let mut i: usize = 0;
    proof {
        assert(fields_view(out@) =~= Seq::<(Seq<char>, (Seq<char>, Option<Seq<char>>))>::empty());
    }
    while i < values.len()
        invariant
            i <= values.len(),
            fields_view(out@) == stored_fields(entries_view(values@).take(i as int)),
        decreases values.len() - i,
    {
        proof {
            let t = entries_view(values@);
            assert(t.take(i + 1).drop_last() =~= t.take(i as int));
            assert(t.take(i + 1).last() == (values@[i as int].0@, values@[i as int].1@));
        }
        let v = stored_value(&values[i].1);
        field_put_exec(&mut out, &values[i].0, v);
        i = i + 1;
    }
    proof {
        assert(entries_view(values@).take(values@.len() as int) =~= entries_view(values@));
        lemma_stored_fields_ordered(entries_view(values@));
    }
    out
}

/// A line that declares nothing: blank, or a `#` comment.
pub open spec fn comment_or_blank(line: Seq<char>) -> bool {
    trim(line).len() == 0 || has_prefix(trim_start(line), seq!['#'])
}

/// A fields text that declares no field: blank, or only comment and
/// blank lines.
pub open spec fn declares_nothing(src: Seq<char>) -> bool {
    trim(src).len() == 0 || forall|i: int|
        0 <= i < lines(src).len() ==> comment_or_blank(#[trigger] lines(src)[i])
}

/// Whether a fields text declares no field.
pub fn no_fields_declared(src: &str) -> (r: bool)
    ensures
        r == declares_nothing(src@),
{
    let cs = chars_of(src);
    if v_trim(&cs).len() == 0 {
        return true;
    }
    let ls = lines_exec(&cs);
    let hash: Vec<char> = vec!['#'];
    proof {
        assert(hash@ =~= seq!['#']);
    }
    let mut i: usize = 0;
    while i < ls.len()
        invariant
            i <= ls.len(),
            crate::text::views(ls@) == lines(src@),
            cs@ == src@,
            trim(src@).len() != 0,
            hash@ == seq!['#'],
            forall|j: int| 0 <= j < i ==> comment_or_blank(#[trigger] lines(src@)[j]),
        decreases ls.len() - i,
    {
        proof {
            assert(lines(src@)[i as int] == ls@[i as int]@);
        }
        if !(v_trim(&ls[i]).len() == 0 || starts_with(&v_trim_start(&ls[i]), &hash)) {
            proof {
                assert(crate::text::views(ls@).len() == ls@.len());
                assert(!comment_or_blank(lines(src@)[i as int]));
                assert(trim(src@).len() != 0);
            }
            return false;
        }
        i = i + 1;
    }
    true
}

/// Whether a prompt body is missing: blank.
pub fn prompt_body_missing(jinja: &str) -> (r: bool)
    ensures
        r == (trim(jinja@).len() == 0),
{
    v_trim(&chars_of(jinja)).len() == 0
}


/// The text of row `i` of a form, or nothing when it has fewer rows.
pub open spec fn row_value(form: FormState, i: int) -> Option<Seq<char>> {
    if 0 <= i < form.fields.len() {
        Some(form.fields@[i].value@)
    } else {
        None
    }
}

/// What an edit-template form holds: the name in row 0 (if there is a
/// row), the fields TOML in row 1 and the prompt body in row 2 (empty
/// when the row is missing).
pub fn template_edit_parts(form: &FormState) -> (r: (Option<String>, String, String))
    ensures
        match r.0 {
            Some(n) => row_value(*form, 0) == Some(n@),
            None => row_value(*form, 0) is None,
        },
        r.1@ == match row_value(*form, 1) {
            Some(v) => v,
            None => Seq::<char>::empty(),
        },
        r.2@ == match row_value(*form, 2) {
            Some(v) => v,
            None => Seq::<char>::empty(),
        },
{
    let name = if form.fields.len() > 0 {
        Some(copy_string(&form.fields[0].value))
    } else {
        None
    };
    let fields_src = if form.fields.len() > 1 {
        copy_string(&form.fields[1].value)
    } else {
        String::new()
    };
    let jinja = if form.fields.len() > 2 {
        copy_string(&form.fields[2].value)
    } else {
        String::new()
    };
    (name, fields_src, jinja)
}

/// An edit applied to a template: the new name when given, the parsed
/// fields with their TOML text, the prompt body; the version goes up by
/// one and the edit time is `now`. Nothing else changes. A template at
/// the highest version is left as it is, and the result says so.
pub fn apply_template_edit(
    t: &mut Template,
    name: Option<String>,
    fields: Vec<Field>,
    fields_toml: String,
    jinja: String,
    now: Timestamp,
) -> (r: bool)
    ensures
        r == (old(t).version < u32::MAX),
        !r ==> *final(t) == *old(t),
        r ==> final(t).name@ == match name {
            Some(n) => n@,
            None => old(t).name@,
        },
        r ==> final(t).fields@ == fields@,
        r ==> final(t).fields_toml@ == fields_toml@,
        r ==> final(t).prompt.template == Some(jinja),
        r ==> final(t).version == old(t).version + 1,
        r ==> final(t).updated_at == now,
        final(t).schema_version == old(t).schema_version,
        final(t).id == old(t).id,
        final(t).description == old(t).description,
        final(t).tags == old(t).tags,
        final(t).created_at == old(t).created_at,
        final(t).preamble == old(t).preamble,
        final(t).derived == old(t).derived,
        final(t).groups == old(t).groups,
{
    if t.version == u32::MAX {
        return false;
    }
    match name {
        Some(n) => {
            t.name = n;
        },
        None => {},
    }
    t.fields = fields;
    t.fields_toml = fields_toml;
    t.prompt = PromptSpec { template: Some(jinja) };
    t.version = t.version + 1;
    t.updated_at = now;
    true
}

} // verus!
