//! Checking filled-in values against their fields: one field's value
//! (required, string length and pattern, select options, allowed
//! values), and a whole task, field by field, skipping hidden fields.

use vstd::prelude::*;
use crate::fields::{Field, FieldKind, OptionItem, ValueType, value_type_name};
use crate::num::{dec, fmt_u128};
use crate::text::{append, chars_of, copy_string, eq, string_of};
use crate::entities::{FieldValue, Task, Template};
use crate::prompt::{check_context, check_context_json};
use serde_json::Value as SerdeValue;

verus! {

/// A JSON value as validation reads it: its type, its JSON text, the
/// string itself for a string, and for an array the type and the string
/// (if a string) of each element.
#[derive(Clone, Debug)]
pub struct Json {
    pub kind: ValueType,
    pub json: String,
    pub text: Option<String>,
    pub items: Vec<(ValueType, Option<String>)>,
}

/// What is wrong with a value.
#[derive(Clone, Debug, PartialEq, Eq)]
pub enum FieldErrorKind {
    Required,
    TooShort { actual: usize, min: usize },
    TooLong { actual: usize, max: usize },
    PatternMismatch { pattern: String },
    NotInteger,
    NotAllowed { value: String },
    WrongType { expected: &'static str, actual: &'static str },
    Custom(String),
}

/// A failure, for the field with the given id.
#[derive(Clone, Debug, PartialEq, Eq)]
pub struct FieldError {
    pub field_id: String,
    pub kind: FieldErrorKind,
}

/// An error kind as plain values.
pub enum KindV {
    Required,
    TooShort { actual: nat, min: nat },
    TooLong { actual: nat, max: nat },
    PatternMismatch { pattern: Seq<char> },
    NotInteger,
    NotAllowed { value: Seq<char> },
    WrongType { expected: Seq<char>, actual: Seq<char> },
    Custom(Seq<char>),
}

impl View for FieldErrorKind {
    type V = KindV;

    open spec fn view(&self) -> KindV {
        match self {
            FieldErrorKind::Required => KindV::Required,
            FieldErrorKind::TooShort { actual, min } => KindV::TooShort {
                actual: *actual as nat,
                min: *min as nat,
            },
            FieldErrorKind::TooLong { actual, max } => KindV::TooLong {
                actual: *actual as nat,
                max: *max as nat,
            },
            FieldErrorKind::PatternMismatch { pattern } => KindV::PatternMismatch {
                pattern: pattern@,
            },
            FieldErrorKind::NotInteger => KindV::NotInteger,
            FieldErrorKind::NotAllowed { value } => KindV::NotAllowed { value: value@ },
            FieldErrorKind::WrongType { expected, actual } => KindV::WrongType {
                expected: expected@,
                actual: actual@,
            },
            FieldErrorKind::Custom(s) => KindV::Custom(s@),
        }
    }
}

impl View for FieldError {
    type V = (Seq<char>, KindV);

    open spec fn view(&self) -> (Seq<char>, KindV) {
        (self.field_id@, self.kind@)
    }
}

pub open spec fn errors_view(es: Seq<FieldError>) -> Seq<(Seq<char>, KindV)> {
    es.map_values(|e: FieldError| e@)
}

impl FieldError {
    /// A failure of the field `field_id`.
    pub fn new(field_id: &str, kind: FieldErrorKind) -> (r: FieldError)
        ensures
            r.field_id@ == field_id@,
            r.kind == kind,
    {
        FieldError { field_id: field_id.to_string(), kind }
    }
}

/// Whether `regex` matches `text` with `pattern`; none when the pattern
/// does not compile.
pub uninterp spec fn regex_outcome(pattern: Seq<char>, text: Seq<char>) -> Option<bool>;

/// How `regex` describes why `pattern` does not compile.
pub uninterp spec fn regex_failure(pattern: Seq<char>) -> Seq<char>;

/// Calls `regex::Regex::new(pattern)`, then `is_match(text)`; on a
/// compile error, its display text. The result is whatever the crate
/// decides for these arguments.
#[verifier::external_body]
fn regex_is_match(pattern: &str, text: &str) -> (r: Result<bool, String>)
    ensures
        match r {
            Ok(b) => regex_outcome(pattern@, text@) == Some(b),
            Err(e) => regex_outcome(pattern@, text@) is None && e@ == regex_failure(pattern@),
        },
{
    match regex::Regex::new(pattern) {
        Ok(re) => Ok(re.is_match(text)),
        Err(e) => Err(e.to_string()),
    }
}

/// The text an error shows for a value: the string itself, else its
/// JSON text.
pub open spec fn shown_value(v: Json) -> Seq<char> {
    match v.text {
        Some(t) => t@,
        None => v.json@,
    }
}

/// The id of an option.
pub open spec fn option_id(o: OptionItem) -> Seq<char> {
    match o {
        OptionItem::Bare(s) => s@,
        OptionItem::Labeled { id, .. } => id@,
    }
}

/// Some option has id `s`.
pub open spec fn has_option(os: Seq<OptionItem>, s: Seq<char>) -> bool {
    exists|i: int| 0 <= i < os.len() && option_id(os[i]) == s
}

/// The kinds whose value is text.
pub open spec fn is_text_kind(k: FieldKind) -> bool {
    k == FieldKind::Textarea || k == FieldKind::SequenceGram || k == FieldKind::CodeBlocks || k
        == FieldKind::Gherkin || k == FieldKind::OpenApi
}

/// The errors of a text value: wrong type, then too short, too long,
/// and the pattern (not matched, or not compiling).
pub open spec fn string_errors(f: Field, v: Json) -> Seq<KindV> {
    match v.text {
        None => seq![KindV::WrongType { expected: "string"@, actual: value_type_name(v.kind) }],
        Some(s) => {
            let n = s@.len();
            let short = match f.validation.min_length {
                Some(min) => if n < min {
                    seq![KindV::TooShort { actual: n, min: min as nat }]
                } else {
                    Seq::empty()
                },
                None => Seq::empty(),
            };
            let long = match f.validation.max_length {
                Some(max) => if n > max {
                    seq![KindV::TooLong { actual: n, max: max as nat }]
                } else {
                    Seq::empty()
                },
                None => Seq::empty(),
            };
            let pat = match f.validation.regex {
                Some(p) => match regex_outcome(p@, s@) {
                    Some(true) => Seq::empty(),
                    Some(false) => seq![KindV::PatternMismatch { pattern: p@ }],
                    None => seq![
                        KindV::Custom("invalid regex `"@ + p@ + "`: "@ + regex_failure(p@)),
                    ],
                },
                None => Seq::empty(),
            };
            short + long + pat
        },
    }
}

/// The errors of a select value.
pub open spec fn select_errors(f: Field, v: Json) -> Seq<KindV> {
    match v.text {
        None => seq![KindV::WrongType { expected: "string"@, actual: value_type_name(v.kind) }],
        Some(s) => if has_option(f.options@, s@) {
            Seq::empty()
        } else {
            seq![KindV::NotAllowed { value: s@ }]
        },
    }
}

/// The errors of the first `n` elements of a multi-select value.
pub open spec fn items_errors(f: Field, items: Seq<(ValueType, Option<String>)>, n: int) -> Seq<
    KindV,
>
    decreases n,
{
    if n <= 0 {
        Seq::empty()
    } else {
        let prev = items_errors(f, items, n - 1);
        let it = items[n - 1];
        match it.1 {
            None => prev.push(KindV::WrongType { expected: "string"@, actual: value_type_name(it.0) }),
            Some(s) => if has_option(f.options@, s@) {
                prev
            } else {
                prev.push(KindV::NotAllowed { value: s@ })
            },
        }
    }
}

/// The errors of a multi-select value: one for each bad element.
pub open spec fn multiselect_errors(f: Field, v: Json) -> Seq<KindV> {
    if v.kind != ValueType::Array {
        seq![KindV::WrongType { expected: "array"@, actual: value_type_name(v.kind) }]
    } else {
        items_errors(f, v.items@, v.items@.len() as int)
    }
}

/// Some allowed value has the value's JSON text.
pub open spec fn allowed(vals: Seq<String>, j: Seq<char>) -> bool {
    exists|i: int| 0 <= i < vals.len() && vals[i]@ == j
}

/// The kinds of the errors of a value of field `f`: none for a field
/// with no value; `Required` for a missing or null value of a required
/// field (nothing for an optional one); otherwise the checks of its
/// kind, then whether it is one of the allowed values.
pub open spec fn value_errors(f: Field, v: Option<Json>) -> Seq<KindV> {
    if f.kind == FieldKind::MarkdownNote {
        Seq::empty()
    } else {
        match v {
            None => if f.required {
                seq![KindV::Required]
            } else {
                Seq::empty()
            },
            Some(j) => if j.kind == ValueType::Null {
                if f.required {
                    seq![KindV::Required]
                } else {
                    Seq::empty()
                }
            } else {
                (if is_text_kind(f.kind) {
                    string_errors(f, j)
                } else if f.kind == FieldKind::Select {
                    select_errors(f, j)
                } else if f.kind == FieldKind::Multiselect {
                    multiselect_errors(f, j)
                } else {
                    Seq::empty()
                }) + match f.validation.allowed_values {
                    Some(vals) => if allowed(vals@, j.json@) {
                        Seq::empty()
                    } else {
                        seq![KindV::NotAllowed { value: shown_value(j) }]
                    },
                    None => Seq::empty(),
                }
            },
        }
    }
}

/// A string given for a select field with no allowed values is
/// accepted exactly when it is the id of one of the field's options: the
/// bare text of a bare option, the `id` of a labeled one, whatever its
/// label. Any other string is refused as not allowed, with the string
/// itself in the error.
pub proof fn lemma_select_by_option_id(f: Field, j: Json, s: String)
    requires
        f.kind == FieldKind::Select,
        j.kind != ValueType::Null,
        j.text == Some(s),
        f.validation.allowed_values is None,
    ensures
        names_an_option(f.options@, s@) ==> value_errors(f, Some(j)) == Seq::<KindV>::empty(),
        !names_an_option(f.options@, s@) ==> value_errors(f, Some(j)) == seq![
            KindV::NotAllowed { value: s@ },
        ],
{
    lemma_names_an_option(f.options@, s@);
    assert(value_errors(f, Some(j)) =~= select_errors(f, j));
}

/// `s` is the text of a bare option or the `id` of a labeled one; labels
/// play no part.
pub open spec fn names_an_option(os: Seq<OptionItem>, s: Seq<char>) -> bool {
    exists|i: int|
        0 <= i < os.len() && match #[trigger] os[i] {
            OptionItem::Bare(x) => x@ == s,
            OptionItem::Labeled { id, .. } => id@ == s,
        }
}

proof fn lemma_names_an_option(os: Seq<OptionItem>, s: Seq<char>)
    ensures
        has_option(os, s) <==> names_an_option(os, s),
{
    if names_an_option(os, s) {
        let i = choose|i: int|
            0 <= i < os.len() && match #[trigger] os[i] {
                OptionItem::Bare(x) => x@ == s,
                OptionItem::Labeled { id, .. } => id@ == s,
            };
        assert(option_id(os[i]) == s);
    }
    if has_option(os, s) {
        let i = choose|i: int| 0 <= i < os.len() && option_id(os[i]) == s;
        assert(match os[i] {
            OptionItem::Bare(x) => x@ == s,
            OptionItem::Labeled { id, .. } => id@ == s,
        });
    }
}

/// An element that is a string naming one of the options.
pub open spec fn is_option_item(os: Seq<OptionItem>, o: Option<String>) -> bool {
    match o {
        Some(t) => names_an_option(os, t@),
        None => false,
    }
}

/// An element that is a string naming none of the options.
pub open spec fn is_stray_item(os: Seq<OptionItem>, o: Option<String>) -> bool {
    match o {
        Some(t) => !names_an_option(os, t@),
        None => false,
    }
}

proof fn lemma_items_by_option_id(f: Field, items: Seq<(ValueType, Option<String>)>, n: int)
    requires
        0 <= n <= items.len(),
    ensures
        (forall|i: int| 0 <= i < n ==> is_option_item(f.options@, (#[trigger] items[i]).1))
            ==> items_errors(f, items, n) == Seq::<KindV>::empty(),
        forall|i: int|
            0 <= i < n && is_stray_item(f.options@, (#[trigger] items[i]).1) ==> items_errors(
                f,
                items,
                n,
            ).contains(KindV::NotAllowed { value: items[i].1->0@ }),
    decreases n,
{
    if n > 0 {
        lemma_items_by_option_id(f, items, n - 1);
        let prev = items_errors(f, items, n - 1);
        let it = items[n - 1];
        if let Some(t) = it.1 {
            lemma_names_an_option(f.options@, t@);
        }
        assert forall|i: int|
            0 <= i < n && is_stray_item(f.options@, (#[trigger] items[i]).1) implies items_errors(
                f,
                items,
                n,
            ).contains(KindV::NotAllowed { value: items[i].1->0@ }) by {
            let cur = items_errors(f, items, n);
            if i < n - 1 {
                let w = choose|w: int|
                    0 <= w < prev.len() && prev[w] == KindV::NotAllowed { value: items[i].1->0@ };
                assert(cur[w] == prev[w]);
            } else {
                assert(cur[cur.len() - 1] == KindV::NotAllowed { value: items[i].1->0@ });
            }
        }
    }
}

/// A list given for a multi-select field with no allowed values is
/// accepted when each of its elements is a string that is the id of one
/// of the field's options (the text of a bare option, the `id` of a
/// labeled one, whatever its label); each string that is no option's id
/// is refused as not allowed, with that string in the error.
pub proof fn lemma_multiselect_by_option_id(f: Field, j: Json)
    requires
        f.kind == FieldKind::Multiselect,
        j.kind == ValueType::Array,
        f.validation.allowed_values is None,
    ensures
        (forall|i: int|
            0 <= i < j.items@.len() ==> is_option_item(f.options@, (#[trigger] j.items@[i]).1))
            ==> value_errors(f, Some(j)) == Seq::<KindV>::empty(),
        forall|i: int|
            0 <= i < j.items@.len() && is_stray_item(f.options@, (#[trigger] j.items@[i]).1)
                ==> value_errors(f, Some(j)).contains(
                KindV::NotAllowed { value: j.items@[i].1->0@ },
            ),
{
    lemma_items_by_option_id(f, j.items@, j.items@.len() as int);
    assert(value_errors(f, Some(j)) =~= items_errors(f, j.items@, j.items@.len() as int));
}

/// A text value with no pattern and no allowed values to meet is checked
/// for its length in characters alone: within the field's bounds it has
/// no error, below the minimum it is too short and above the maximum too
/// long, each error carrying the length and the bound.
pub proof fn lemma_text_length_bounds(f: Field, j: Json, s: String)
    requires
        is_text_kind(f.kind),
        j.kind != ValueType::Null,
        j.text == Some(s),
        f.validation.regex is None,
        f.validation.allowed_values is None,
    ensures
        (f.validation.min_length matches Some(mn) ==> s@.len() >= mn) && (
        f.validation.max_length matches Some(mx) ==> s@.len() <= mx) ==> value_errors(f, Some(j))
            == Seq::<KindV>::empty(),
        f.validation.min_length matches Some(mn) ==> (s@.len() < mn ==> value_errors(
            f,
            Some(j),
        ).contains(KindV::TooShort { actual: s@.len(), min: mn as nat })),
        f.validation.max_length matches Some(mx) ==> (s@.len() > mx ==> value_errors(
            f,
            Some(j),
        ).contains(KindV::TooLong { actual: s@.len(), max: mx as nat })),
{
    let e = value_errors(f, Some(j));
    assert(e =~= string_errors(f, j));
    if let Some(mn) = f.validation.min_length {
        if s@.len() < mn {
            assert(e[0] == KindV::TooShort { actual: s@.len(), min: mn as nat });
        }
    }
    if let Some(mx) = f.validation.max_length {
        if s@.len() > mx {
            let k = if f.validation.min_length matches Some(mn) && s@.len() < mn {
                1int
            } else {
                0int
            };
            assert(e[k] == KindV::TooLong { actual: s@.len(), max: mx as nat });
        }
    }
}

/// Each kind as an error of the field `id`.
pub open spec fn tagged(id: Seq<char>, ks: Seq<KindV>) -> Seq<(Seq<char>, KindV)> {
    ks.map_values(|k: KindV| (id, k))
}

fn push_err(out: &mut Vec<FieldError>, id: &String, kind: FieldErrorKind)
    ensures
        errors_view(final(out)@) == errors_view(old(out)@).push((id@, kind@)),
{
    let ghost before = errors_view(out@);
    out.push(FieldError { field_id: copy_string(id), kind });
    proof {
        assert(errors_view(out@) =~= before.push((id@, kind@)));
    }
}

fn has_option_exec(os: &Vec<OptionItem>, s: &String) -> (r: bool)
    ensures
        r == has_option(os@, s@),
{
    let sc = chars_of(s.as_str());
    let mut i: usize = 0;
    while i < os.len()
        invariant
            i <= os.len(),
            sc@ == s@,
            forall|k: int| 0 <= k < i ==> option_id(os@[k]) != s@,
        decreases os.len() - i,
    {
        if eq(&chars_of(os[i].id()), &sc) {
            return true;
        }
        i = i + 1;
    }
    false
}

fn string_errors_exec(f: &Field, v: &Json, out: &mut Vec<FieldError>)
    ensures
        errors_view(final(out)@) == errors_view(old(out)@) + tagged(f.id@, string_errors(*f, *v)),
{
    let ghost o = errors_view(out@);
    proof {
        reveal_strlit("string");
    }
    match &v.text {
        None => {
            push_err(out, &f.id, FieldErrorKind::WrongType { expected: "string", actual: v.kind.as_static() });
            proof {
                assert(errors_view(out@) =~= o + tagged(f.id@, string_errors(*f, *v)));
            }
        },
        Some(s) => {
            let n = chars_of(s.as_str()).len();
            let ghost want = string_errors(*f, *v);
            match f.validation.min_length {
                Some(min) => {
                    if n < min {
                        push_err(out, &f.id, FieldErrorKind::TooShort { actual: n, min });
                    }
                },
                None => {},
            }
            match f.validation.max_length {
                Some(max) => {
                    if n > max {
                        push_err(out, &f.id, FieldErrorKind::TooLong { actual: n, max });
                    }
                },
                None => {},
            }
            match &f.validation.regex {
                Some(p) => {
                    match regex_is_match(p.as_str(), s.as_str()) {
                        Ok(true) => {},
                        Ok(false) => {
                            push_err(out, &f.id, FieldErrorKind::PatternMismatch { pattern: copy_string(p) });
                        },
                        Err(e) => {
                            proof {
                                reveal_strlit("invalid regex `");
                                reveal_strlit("`: ");
                            }
                            let mut m = chars_of("invalid regex `");
                            append(&mut m, &chars_of(p.as_str()));
                            append(&mut m, &chars_of("`: "));
                            append(&mut m, &chars_of(e.as_str()));
                            push_err(out, &f.id, FieldErrorKind::Custom(string_of(&m)));
                        },
                    }
                },
                None => {},
            }
            proof {
                assert(errors_view(out@) =~= o + tagged(f.id@, string_errors(*f, *v)));
            }
        },
    }
}

fn select_errors_exec(f: &Field, v: &Json, out: &mut Vec<FieldError>)
    ensures
        errors_view(final(out)@) == errors_view(old(out)@) + tagged(f.id@, select_errors(*f, *v)),
{
    let ghost o = errors_view(out@);
    proof {
        reveal_strlit("string");
    }
    match &v.text {
        None => {
            push_err(out, &f.id, FieldErrorKind::WrongType { expected: "string", actual: v.kind.as_static() });
        },
        Some(s) => {
            if !has_option_exec(&f.options, s) {
                push_err(out, &f.id, FieldErrorKind::NotAllowed { value: copy_string(s) });
            }
        },
    }
    proof {
        assert(errors_view(out@) =~= o + tagged(f.id@, select_errors(*f, *v)));
    }
}

fn multiselect_errors_exec(f: &Field, v: &Json, out: &mut Vec<FieldError>)
    ensures
        errors_view(final(out)@) == errors_view(old(out)@) + tagged(
            f.id@,
            multiselect_errors(*f, *v),
        ),
{
    let ghost o = errors_view(out@);
    proof {
        reveal_strlit("string");
        reveal_strlit("array");
    }
    if v.kind != ValueType::Array {
        push_err(out, &f.id, FieldErrorKind::WrongType { expected: "array", actual: v.kind.as_static() });
        proof {
            assert(errors_view(out@) =~= o + tagged(f.id@, multiselect_errors(*f, *v)));
        }
        return;
    }
    let mut i: usize = 0;
    while i < v.items.len()
        invariant
            i <= v.items.len(),
            v.kind == ValueType::Array,
            errors_view(out@) == o + tagged(f.id@, items_errors(*f, v.items@, i as int)),
        decreases v.items.len() - i,
    {
        let ghost before = errors_view(out@);
        match &v.items[i].1 {
            None => {
                push_err(out, &f.id, FieldErrorKind::WrongType { expected: "string", actual: v.items[i].0.as_static() });
            },
            Some(s) => {
                if !has_option_exec(&f.options, s) {
                    push_err(out, &f.id, FieldErrorKind::NotAllowed { value: copy_string(s) });
                }
            },
        }
        i = i + 1;
        proof {
            assert(errors_view(out@) =~= o + tagged(f.id@, items_errors(*f, v.items@, i as int)));
        }
    }
}

fn allowed_exec(vals: &Vec<String>, j: &String) -> (r: bool)
    ensures
        r == allowed(vals@, j@),
{
    let jc = chars_of(j.as_str());
    let mut i: usize = 0;
    while i < vals.len()
        invariant
            i <= vals.len(),
            jc@ == j@,
            forall|k: int| 0 <= k < i ==> vals@[k]@ != j@,
        decreases vals.len() - i,
    {
        if eq(&chars_of(vals[i].as_str()), &jc) {
            return true;
        }
        i = i + 1;
    }
    false
}

/// Checks one value against its field and returns every failure, in
/// the order `value_errors` gives.
pub fn validate_field(f: &Field, v: Option<&Json>) -> (r: Vec<FieldError>)
    ensures
        errors_view(r@) == tagged(
            f.id@,
            value_errors(
                *f,
                match v {
                    Some(j) => Some(*j),
                    None => None,
                },
            ),
        ),
{
    let mut out: Vec<FieldError> = Vec::new();
    proof {
        assert(errors_view(out@) =~= Seq::<(Seq<char>, KindV)>::empty());
    }
    if !f.kind.has_value() {
        return out;
    }
    let j = match v {
        None => {
            if f.required {
                push_err(&mut out, &f.id, FieldErrorKind::Required);
            }
            proof {
                assert(errors_view(out@) =~= tagged(f.id@, value_errors(*f, None)));
            }
            return out;
        },
        Some(j) => j,
    };
    if j.kind == ValueType::Null {
        if f.required {
            push_err(&mut out, &f.id, FieldErrorKind::Required);
        }
        proof {
            assert(errors_view(out@) =~= tagged(f.id@, value_errors(*f, Some(*j))));
        }
        return out;
    }
    let k = f.kind;
    if k == FieldKind::Textarea || k == FieldKind::SequenceGram || k == FieldKind::CodeBlocks || k
        == FieldKind::Gherkin || k == FieldKind::OpenApi {
        string_errors_exec(f, j, &mut out);
    } else if k == FieldKind::Select {
        select_errors_exec(f, j, &mut out);
    } else if k == FieldKind::Multiselect {
        multiselect_errors_exec(f, j, &mut out);
    }
    let ghost mid = errors_view(out@);
    match &f.validation.allowed_values {
        Some(vals) => {
            if !allowed_exec(vals, &j.json) {
                let shown = match &j.text {
                    Some(t) => copy_string(t),
                    None => copy_string(&j.json),
                };
                push_err(&mut out, &f.id, FieldErrorKind::NotAllowed { value: shown });
            }
        },
        None => {},
    }
    proof {
        assert(errors_view(out@) =~= tagged(f.id@, value_errors(*f, Some(*j))));
    }
    out
}

// ---------------------------------------------------------------------
// A whole task.

/// Every failure found on a task.
#[derive(Clone, Debug)]
pub struct ValidationError {
    pub errors: Vec<FieldError>,
}

impl ValidationError {
    /// A failure made of these errors.
    pub fn new(errors: Vec<FieldError>) -> (r: ValidationError)
        ensures
            r.errors == errors,
    {
        ValidationError { errors }
    }

    /// A failure made of one error.
    pub fn single(e: FieldError) -> (r: ValidationError)
        ensures
            r.errors@ == seq![e],
    {
        ValidationError { errors: vec![e] }
    }
}

/// What a `show_if` expression gives over a task's context.
pub enum ShowIf {
    /// It evaluated; whether the value is true.
    Shown(bool),
    /// It does not compile, for this reason.
    BadExpression(String),
    /// It compiled but failed to evaluate, for this reason.
    EvalFailed(String),
}

/// `ShowIf` as plain values.
pub enum ShowIfV {
    Shown(bool),
    BadExpression(Seq<char>),
    EvalFailed(Seq<char>),
}

impl View for ShowIf {
    type V = ShowIfV;

    open spec fn view(&self) -> ShowIfV {
        match self {
            ShowIf::Shown(b) => ShowIfV::Shown(*b),
            ShowIf::BadExpression(e) => ShowIfV::BadExpression(e@),
            ShowIf::EvalFailed(e) => ShowIfV::EvalFailed(e@),
        }
    }
}

/// What `minijinja` makes of the expression `expr` over the context
/// written as the JSON text `ctx`.
pub uninterp spec fn show_if_outcome(expr: Seq<char>, ctx: Seq<char>) -> ShowIfV;

/// Compiles `expr` with `minijinja::Environment::compile_expression`
/// and evaluates it over the context read from the JSON text `ctx`
/// (`serde_json::from_str`; null when it does not parse), then asks
/// `Value::is_true`; the errors as their display text. The result is
/// whatever the crates decide for these arguments.
#[verifier::external_body]
fn eval_show_if(expr: &str, ctx: &str) -> (r: ShowIf)
    ensures
        r@ == show_if_outcome(expr@, ctx@),
{
    let env = minijinja::Environment::new();
    let value: serde_json::Value = serde_json::from_str(ctx).unwrap_or(serde_json::Value::Null);
    match env.compile_expression(expr) {
        Ok(compiled) => match compiled.eval(value) {
            Ok(v) => ShowIf::Shown(v.is_true()),
            Err(e) => ShowIf::EvalFailed(e.to_string()),
        },
        Err(e) => ShowIf::BadExpression(e.to_string()),
    }
}

/// The first index of the value for `id`, or -1.
pub open spec fn value_index(vals: Seq<(String, Json)>, id: Seq<char>) -> int
    decreases vals.len(),
{
    if vals.len() == 0 {
        -1
    } else if value_index(vals.drop_last(), id) >= 0 {
        value_index(vals.drop_last(), id)
    } else if vals.last().0@ == id {
        vals.len() - 1
    } else {
        -1
    }
}

/// The value stored for `id`, if any.
pub open spec fn value_of(vals: Seq<(String, Json)>, id: Seq<char>) -> Option<Json> {
    let k = value_index(vals, id);
    if k >= 0 {
        Some(vals[k].1)
    } else {
        None
    }
}

/// The checks of the first `n` fields: the errors so far, or the one
/// error of a `show_if` that could not be evaluated.
pub open spec fn task_scan(fs: Seq<Field>, vals: Seq<(String, Json)>, ctx: Seq<char>, n: int) -> Result<
    Seq<(Seq<char>, KindV)>,
    (Seq<char>, KindV),
>
    decreases n,
{
    if n <= 0 {
        Ok(Seq::empty())
    } else {
        match task_scan(fs, vals, ctx, n - 1) {
            Err(e) => Err(e),
            Ok(es) => {
                let f = fs[n - 1];
                let checks = tagged(f.id@, value_errors(f, value_of(vals, f.id@)));
                match f.show_if {
                    None => Ok(es + checks),
                    Some(expr) => match show_if_outcome(expr@, ctx) {
                        ShowIfV::Shown(true) => Ok(es + checks),
                        ShowIfV::Shown(false) => Ok(es),
                        ShowIfV::BadExpression(m) => Err(
                            (f.id@, KindV::Custom("invalid show_if expression: "@ + m)),
                        ),
                        ShowIfV::EvalFailed(m) => Err(
                            (f.id@, KindV::Custom("show_if evaluation failed: "@ + m)),
                        ),
                    },
                }
            },
        }
    }
}

fn value_of_exec<'a>(vals: &'a Vec<(String, Json)>, id: &String) -> (r: Option<&'a Json>)
    ensures
        match r {
            Some(j) => value_of(vals@, id@) == Some(*j),
            None => value_of(vals@, id@) is None,
        },
{
    let ic = chars_of(id.as_str());
    let mut i: usize = 0;
    while i < vals.len()
        invariant
            i <= vals.len(),
            ic@ == id@,
            value_index(vals@.take(i as int), id@) == -1,
        decreases vals.len() - i,
    {
        proof {
            assert(vals@.take(i + 1).drop_last() =~= vals@.take(i as int));
        }
        if eq(&chars_of(vals[i].0.as_str()), &ic) {
            proof {
                lemma_value_index_prefix(vals@, id@, i + 1);
            }
            return Some(&vals[i].1);
        }
        i = i + 1;
    }
    proof {
        assert(vals@.take(vals.len() as int) =~= vals@);
    }
    None
}

proof fn lemma_value_index_prefix(vals: Seq<(String, Json)>, id: Seq<char>, n: int)
    requires
        0 <= n <= vals.len(),
        value_index(vals.take(n), id) >= 0,
    ensures
        value_index(vals, id) == value_index(vals.take(n), id),
    decreases vals.len() - n,
{
    if n < vals.len() {
        assert(vals.take(n + 1).drop_last() =~= vals.take(n));
        lemma_value_index_prefix(vals, id, n + 1);
    } else {
        assert(vals.take(n) =~= vals);
    }
}

/// Once the scan stops with an error, later fields do not change it.
proof fn lemma_scan_err_stays(fs: Seq<Field>, vals: Seq<(String, Json)>, ctx: Seq<char>, i: int, n: int)
    requires
        0 <= i <= n,
        task_scan(fs, vals, ctx, i) is Err,
    ensures
        task_scan(fs, vals, ctx, n) == task_scan(fs, vals, ctx, i),
    decreases n - i,
{
    if n > i {
        lemma_scan_err_stays(fs, vals, ctx, i, n - 1);
    }
}

/// Checks a task's values against its template's fields: every visible
/// field (one without `show_if`, or whose `show_if` is true over the
/// context `ctx`) is checked as `validate_field` does; hidden fields are
/// skipped, even required ones. A `show_if` that does not compile or
/// evaluate stops the check with that one error.
pub fn validate_task(fields: &Vec<Field>, values: &Vec<(String, Json)>, ctx: &str) -> (r: Result<
    (),
    ValidationError,
>)
    ensures
        match task_scan(fields@, values@, ctx@, fields@.len() as int) {
            Err(e) => r matches Err(v) && errors_view(v.errors@) == seq![e],
            Ok(es) => if es.len() == 0 {
                r is Ok
            } else {
                r matches Err(v) && errors_view(v.errors@) == es
            },
        },
{
    let mut errors: Vec<FieldError> = Vec::new();
    let mut i: usize = 0;
    proof {
        assert(errors_view(errors@) =~= Seq::<(Seq<char>, KindV)>::empty());
    }
    while i < fields.len()
        invariant
            i <= fields.len(),
            task_scan(fields@, values@, ctx@, i as int) == Ok::<
                Seq<(Seq<char>, KindV)>,
                (Seq<char>, KindV),
            >(errors_view(errors@)),
        decreases fields.len() - i,
    {
        let f = &fields[i];
        let visible = match &f.show_if {
            None => true,
            Some(expr) => match eval_show_if(expr.as_str(), ctx) {
                ShowIf::Shown(b) => b,
                ShowIf::BadExpression(m) => {
                    proof {
                        reveal_strlit("invalid show_if expression: ");
                    }
                    let mut t = chars_of("invalid show_if expression: ");
                    append(&mut t, &chars_of(m.as_str()));
                    let e = FieldError { field_id: copy_string(&f.id), kind: FieldErrorKind::Custom(string_of(&t)) };
                    let v = ValidationError::single(e);
                    proof {
                        assert(errors_view(v.errors@) =~= seq![e@]);
                        assert(task_scan(fields@, values@, ctx@, i + 1) == Err::<Seq<(Seq<char>, KindV)>, (Seq<char>, KindV)>(e@));
                        lemma_scan_err_stays(fields@, values@, ctx@, i + 1, fields@.len() as int);
                    }
                    return Err(v);
                },
                ShowIf::EvalFailed(m) => {
                    proof {
                        reveal_strlit("show_if evaluation failed: ");
                    }
                    let mut t = chars_of("show_if evaluation failed: ");
                    append(&mut t, &chars_of(m.as_str()));
                    let e = FieldError { field_id: copy_string(&f.id), kind: FieldErrorKind::Custom(string_of(&t)) };
                    let v = ValidationError::single(e);
                    proof {
                        assert(errors_view(v.errors@) =~= seq![e@]);
                        assert(task_scan(fields@, values@, ctx@, i + 1) == Err::<Seq<(Seq<char>, KindV)>, (Seq<char>, KindV)>(e@));
                        lemma_scan_err_stays(fields@, values@, ctx@, i + 1, fields@.len() as int);
                    }
                    return Err(v);
                },
            },
        };
        if visible {
            let found = value_of_exec(values, &f.id);
            let mut more = validate_field(f, found);
            let ghost before = errors_view(errors@);
            let ghost add = errors_view(more@);
            errors.append(&mut more);
            proof {
                assert(errors_view(errors@) =~= before + add);
            }
        }
        i = i + 1;
    }
    if errors.len() == 0 {
        Ok(())
    } else {
        Err(ValidationError::new(errors))
    }
}

// ---------------------------------------------------------------------
// Messages.

/// How an error kind reads.
pub open spec fn kind_message(k: KindV) -> Seq<char> {
    match k {
        KindV::Required => "required field is missing"@,
        KindV::TooShort { actual, min } => "value is too short ("@ + dec(actual) + " < "@ + dec(min)
            + ")"@,
        KindV::TooLong { actual, max } => "value is too long ("@ + dec(actual) + " > "@ + dec(max)
            + ")"@,
        KindV::PatternMismatch { pattern } => "value does not match pattern `"@ + pattern + "`"@,
        KindV::NotInteger => "expected an integer, got a non-integer number"@,
        KindV::NotAllowed { value } => "value `"@ + value + "` is not in the allowed set"@,
        KindV::WrongType { expected, actual } => "expected type "@ + expected + ", found "@ + actual,
        KindV::Custom(s) => s,
    }
}

impl FieldErrorKind {
    /// How the error reads.
    pub fn to_string(&self) -> (r: String)
        ensures
            r@ == kind_message(self@),
    {
        match self {
            FieldErrorKind::Required => {
                proof {
                    reveal_strlit("required field is missing");
                }
                "required field is missing".to_string()
            },
            FieldErrorKind::TooShort { actual, min } => {
                let mut v = chars_of("value is too short (");
                append(&mut v, &fmt_u128(*actual as u128));
                append(&mut v, &chars_of(" < "));
                append(&mut v, &fmt_u128(*min as u128));
                append(&mut v, &chars_of(")"));
                proof {
                    reveal_strlit("value is too short (");
                    reveal_strlit(" < ");
                    reveal_strlit(")");
                }
                string_of(&v)
            },
            FieldErrorKind::TooLong { actual, max } => {
                let mut v = chars_of("value is too long (");
                append(&mut v, &fmt_u128(*actual as u128));
                append(&mut v, &chars_of(" > "));
                append(&mut v, &fmt_u128(*max as u128));
                append(&mut v, &chars_of(")"));
                proof {
                    reveal_strlit("value is too long (");
                    reveal_strlit(" > ");
                    reveal_strlit(")");
                }
                string_of(&v)
            },
            FieldErrorKind::PatternMismatch { pattern } => {
                let mut v = chars_of("value does not match pattern `");
                append(&mut v, &chars_of(pattern.as_str()));
                append(&mut v, &chars_of("`"));
                proof {
                    reveal_strlit("value does not match pattern `");
                    reveal_strlit("`");
                }
                string_of(&v)
            },
            FieldErrorKind::NotInteger => {
                proof {
                    reveal_strlit("expected an integer, got a non-integer number");
                }
                "expected an integer, got a non-integer number".to_string()
            },
            FieldErrorKind::NotAllowed { value } => {
                let mut v = chars_of("value `");
                append(&mut v, &chars_of(value.as_str()));
                append(&mut v, &chars_of("` is not in the allowed set"));
                proof {
                    reveal_strlit("value `");
                    reveal_strlit("` is not in the allowed set");
                }
                string_of(&v)
            },
            FieldErrorKind::WrongType { expected, actual } => {
                let mut v = chars_of("expected type ");
                append(&mut v, &chars_of(expected));
                append(&mut v, &chars_of(", found "));
                append(&mut v, &chars_of(actual));
                proof {
                    reveal_strlit("expected type ");
                    reveal_strlit(", found ");
                }
                string_of(&v)
            },
            FieldErrorKind::Custom(s) => copy_string(s),
        }
    }
}

impl FieldError {
    /// `[field_id] message`.
    pub fn to_string(&self) -> (r: String)
        ensures
            r@ == "["@ + self.field_id@ + "] "@ + kind_message(self.kind@),
    {
        let mut v = chars_of("[");
        append(&mut v, &chars_of(self.field_id.as_str()));
        append(&mut v, &chars_of("] "));
        append(&mut v, &chars_of(self.kind.to_string().as_str()));
        proof {
            reveal_strlit("[");
            reveal_strlit("] ");
        }
        string_of(&v)
    }
}

impl ValidationError {
    /// `validation failed with N error(s)`.
    pub fn to_string(&self) -> (r: String)
        ensures
            r@ == "validation failed with "@ + dec(self.errors@.len()) + " error(s)"@,
    {
        let mut v = chars_of("validation failed with ");
        append(&mut v, &fmt_u128(self.errors.len() as u128));
        append(&mut v, &chars_of(" error(s)"));
        proof {
            reveal_strlit("validation failed with ");
            reveal_strlit(" error(s)");
        }
        string_of(&v)
    }
}


/// A value's shape as plain values: its type, the string for a string,
/// and each element's type and string for an array.
pub type JsonShape = (ValueType, Option<Seq<char>>, Seq<(ValueType, Option<Seq<char>>)>);

/// The shape of a `Json`.
pub open spec fn json_view(j: Json) -> JsonShape {
    (
        j.kind,
        match j.text {
            Some(t) => Some(t@),
            None => None,
        },
        j.items@.map_values(
            |it: (ValueType, Option<String>)|
                (
                    it.0,
                    match it.1 {
                        Some(t) => Some(t@),
                        None => None,
                    },
                ),
        ),
    )
}

/// What `serde_json` reads from the JSON text `text`, as a shape; none
/// when the text is not JSON.
pub uninterp spec fn json_read(text: Seq<char>) -> Option<JsonShape>;

/// Reads the JSON text `text` with `serde_json::from_str` into a
/// `Value` and takes its shape: the variant as a type, `Value::as_str`,
/// and for `Value::as_array` each element's variant and `as_str`. None
/// when the text does not parse. The shape is whatever `serde_json`
/// makes of the text; the JSON text is kept as given.
#[verifier::external_body]
fn read_json(text: &str) -> (r: Option<Json>)
    ensures
        match r {
            Some(j) => json_read(text@) == Some(json_view(j)) && j.json@ == text@,
            None => json_read(text@) is None,
        },
{
    let kind = |x: &SerdeValue| match x {
        SerdeValue::Null => ValueType::Null,
        SerdeValue::Bool(_) => ValueType::Bool,
        SerdeValue::Number(_) => ValueType::Number,
        SerdeValue::String(_) => ValueType::String,
        SerdeValue::Array(_) => ValueType::Array,
        SerdeValue::Object(_) => ValueType::Object,
    };
    let v: SerdeValue = serde_json::from_str(text).ok()?;
    let items = v.as_array().into_iter().flatten().map(|x| (kind(x), x.as_str().map(String::from)));
    Some(Json { kind: kind(&v), json: text.to_string(), text: v.as_str().map(String::from), items: items.collect() })
}

/// The stored values of a task that read as JSON, by field id, in order;
/// a value whose text is not JSON is left out.
pub open spec fn values_read(fs: Seq<(String, FieldValue)>) -> Seq<(Seq<char>, JsonShape)>
    decreases fs.len(),
{
    if fs.len() == 0 {
        Seq::empty()
    } else {
        let r = values_read(fs.drop_last());
        match json_read(fs.last().1.json@) {
            Some(sh) => r.push((fs.last().0@, sh)),
            None => r,
        }
    }
}

/// `vals` holds exactly the values `shapes` describes.
pub open spec fn values_match(vals: Seq<(String, Json)>, shapes: Seq<(Seq<char>, JsonShape)>) -> bool {
    vals.len() == shapes.len() && forall|i: int|
        0 <= i < vals.len() ==> (#[trigger] vals[i]).0@ == shapes[i].0 && json_view(vals[i].1)
            == shapes[i].1
}

/// The outcome of checking values against the fields of a template.
pub open spec fn checked(fields: Seq<Field>, vals: Seq<(String, Json)>, ctx: Seq<char>, r: Result<
    (),
    ValidationError,
>) -> bool {
    match task_scan(fields, vals, ctx, fields.len() as int) {
        Err(e) => r matches Err(v) && errors_view(v.errors@) == seq![e],
        Ok(es) => if es.len() == 0 {
            r is Ok
        } else {
            r matches Err(v) && errors_view(v.errors@) == es
        },
    }
}

/// Checks `task` against `template`: each visible field's value as the
/// task stores it (read as JSON), with `show_if` evaluated over the
/// context `check_context` writes.
pub fn validate_task_for(template: &Template, task: &Task) -> (r: Result<(), ValidationError>)
    ensures
        exists|vals: Seq<(String, Json)>|
            values_match(vals, values_read(task.fields@)) && checked(
                template.fields@,
                vals,
                check_context_json(*template, *task),
                r,
            ),
{
    let ctx = check_context(template, task);
    let mut values: Vec<(String, Json)> = Vec::new();
    let mut i: usize = 0;
    while i < task.fields.len()
        invariant
            i <= task.fields.len(),
            values_match(values@, values_read(task.fields@.take(i as int))),
        decreases task.fields.len() - i,
    {
        proof {
            assert(task.fields@.take(i + 1).drop_last() =~= task.fields@.take(i as int));
        }
        let ghost before = values@;
        match read_json(task.fields[i].1.json.as_str()) {
            Some(j) => {
                values.push((copy_string(&task.fields[i].0), j));
                proof {
                    let sh = values_read(task.fields@.take(i + 1));
                    assert forall|k: int| 0 <= k < values@.len() implies (#[trigger] values@[k]).0@
                        == sh[k].0 && json_view(values@[k].1) == sh[k].1 by {
                        if k < before.len() {
                            assert(values@[k] == before[k]);
                        }
                    }
                }
            },
            None => {},
        }
        i = i + 1;
    }
    proof {
        assert(task.fields@.take(task.fields@.len() as int) =~= task.fields@);
    }
    let r = validate_task(&template.fields, &values, ctx.as_str());
    proof {
        assert(checked(template.fields@, values@, check_context_json(*template, *task), r));
    }
    r
}

} // verus!
