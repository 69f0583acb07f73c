//! Derived values: facts about the project resolved once, when a task is
//! created, and frozen in the task record.
//!
//! Four providers are allowed:
//!
//! - `file`: a project-relative file, UTF-8, optionally truncated;
//! - `cmd`: an argv command (no shell), its stdout with trailing
//!   whitespace removed;
//! - `env`: an environment variable;
//! - `tree`: the files under the project root, one per line.
//!
//! The providers reach the outside world through three small traits,
//! `FsProvider`, `CmdProvider` and `EnvProvider`, so that callers can
//! plug in real or scripted access. What is done with each answer is
//! stated here exactly; the answers themselves are whatever the
//! implementations return.

use vstd::prelude::*;
use vstd::utf8::{decode_utf8, valid_utf8};
use crate::num::{dec, dec_signed, fmt_i64, fmt_u128};
use crate::openapi_editor::strings_of;
use crate::paths::{join, path_join, relative_exec, relative_to};
use crate::text::{
    append, chars_of, contains, contains_exec, copy_string, eq, string_of, trim_end, v_trim_end,
};

verus! {

/// Why a derived value could not be resolved.
#[derive(Clone, Debug, PartialEq, Eq)]
pub enum DeriveError {
    ProviderFailed { name: String, reason: String },
    Timeout { name: String, timeout_ms: u64 },
    UnknownKind(String),
    Io(String),
}

/// `DeriveError` as plain values.
pub enum DeriveErrorV {
    ProviderFailed { name: Seq<char>, reason: Seq<char> },
    Timeout { name: Seq<char>, timeout_ms: u64 },
    UnknownKind(Seq<char>),
    Io(Seq<char>),
}

impl View for DeriveError {
    type V = DeriveErrorV;

    open spec fn view(&self) -> DeriveErrorV {
        match self {
            DeriveError::ProviderFailed { name, reason } => DeriveErrorV::ProviderFailed {
                name: name@,
                reason: reason@,
            },
            DeriveError::Timeout { name, timeout_ms } => DeriveErrorV::Timeout {
                name: name@,
                timeout_ms: *timeout_ms,
            },
            DeriveError::UnknownKind(n) => DeriveErrorV::UnknownKind(n@),
            DeriveError::Io(m) => DeriveErrorV::Io(m@),
        }
    }
}

/// The provider called `name` failed for `reason`.
pub open spec fn failed(name: Seq<char>, reason: Seq<char>) -> DeriveErrorV {
    DeriveErrorV::ProviderFailed { name, reason }
}

fn fail(name: &str, reason: &str) -> (e: DeriveError)
    ensures
        e@ == failed(name@, reason@),
{
    DeriveError::ProviderFailed { name: name.to_string(), reason: reason.to_string() }
}

/// The message an error is shown with.
pub open spec fn derive_message(e: DeriveErrorV) -> Seq<char> {
    match e {
        DeriveErrorV::ProviderFailed { name, reason } => "provider `"@ + name + "` failed: "@
            + reason,
        DeriveErrorV::Timeout { name, timeout_ms } => "provider `"@ + name + "` timed out after "@
            + dec(timeout_ms as nat) + " ms"@,
        DeriveErrorV::UnknownKind(n) => "unknown provider kind `"@ + n + "`"@,
        DeriveErrorV::Io(m) => "io error: "@ + m,
    }
}

impl DeriveError {
    /// The message this error is shown with.
    pub fn to_string(&self) -> (r: String)
        ensures
            r@ == derive_message(self@),
    {
        proof {
            reveal_strlit("provider `");
            reveal_strlit("` failed: ");
            reveal_strlit("` timed out after ");
            reveal_strlit(" ms");
            reveal_strlit("unknown provider kind `");
            reveal_strlit("`");
            reveal_strlit("io error: ");
        }
        let mut v: Vec<char>;
        match self {
            DeriveError::ProviderFailed { name, reason } => {
                v = chars_of("provider `");
                append(&mut v, &chars_of(name.as_str()));
                append(&mut v, &chars_of("` failed: "));
                append(&mut v, &chars_of(reason.as_str()));
            },
            DeriveError::Timeout { name, timeout_ms } => {
                v = chars_of("provider `");
                append(&mut v, &chars_of(name.as_str()));
                append(&mut v, &chars_of("` timed out after "));
                append(&mut v, &fmt_u128(*timeout_ms as u128));
                append(&mut v, &chars_of(" ms"));
            },
            DeriveError::UnknownKind(n) => {
                v = chars_of("unknown provider kind `");
                append(&mut v, &chars_of(n.as_str()));
                append(&mut v, &chars_of("`"));
            },
            DeriveError::Io(m) => {
                v = chars_of("io error: ");
                append(&mut v, &chars_of(m.as_str()));
            },
        }
        string_of(&v)
    }
}

/// A JSON value as a provider declaration is read. An object is its
/// entries in order, each key once.
#[derive(Debug)]
pub enum JsonValue {
    Null,
    Bool(bool),
    /// A number, with its value where it is an integer that fits in `u64`.
    Number(Option<u64>),
    Str(String),
    Array(Vec<JsonValue>),
    Object(Vec<(String, JsonValue)>),
}

/// A declaration as stored in a template: the JSON table under its name.
#[derive(Debug)]
pub struct DerivedSpec(pub JsonValue);

/// The value stored under `key` in an object's entries.
pub open spec fn lookup(m: Seq<(String, JsonValue)>, key: Seq<char>) -> Option<JsonValue>
    decreases m.len(),
{
    if m.len() == 0 {
        None
    } else if m[0].0@ == key {
        Some(m[0].1)
    } else {
        lookup(m.drop_first(), key)
    }
}

fn get<'a>(m: &'a Vec<(String, JsonValue)>, key: &str) -> (r: Option<&'a JsonValue>)
    ensures
        match r {
            Some(v) => lookup(m@, key@) == Some(*v),
            None => lookup(m@, key@) is None,
        },
{
    let kc = chars_of(key);
    let mut i: usize = 0;
    proof {
        assert(m@.subrange(0, m@.len() as int) =~= m@);
    }
    while i < m.len()
        invariant
            i <= m.len(),
            kc@ == key@,
            lookup(m@, key@) == lookup(m@.subrange(i as int, m@.len() as int), key@),
        decreases m.len() - i,
    {
        proof {
            assert(m@.subrange(i as int, m@.len() as int).drop_first() =~= m@.subrange(
                i + 1,
                m@.len() as int,
            ));
        }
        if eq(&chars_of(m[i].0.as_str()), &kc) {
            return Some(&m[i].1);
        }
        i = i + 1;
    }
    None
}

/// `Value::as_u64` on an entry that may be missing.
pub open spec fn u64_of(v: Option<JsonValue>) -> Option<u64> {
    match v {
        Some(JsonValue::Number(Some(n))) => Some(n),
        _ => None,
    }
}

fn u64_exec(v: Option<&JsonValue>) -> (r: Option<u64>)
    ensures
        r == u64_of(match v {
            Some(j) => Some(*j),
            None => None,
        }),
{
    match v {
        Some(JsonValue::Number(Some(n))) => Some(*n),
        _ => None,
    }
}

/// The string held by a JSON value, if it is a string.
pub open spec fn str_of(v: JsonValue) -> Seq<char> {
    match v {
        JsonValue::Str(s) => s@,
        _ => Seq::empty(),
    }
}

/// The strings among `a`, in order; others are skipped.
pub open spec fn strings_only(a: Seq<JsonValue>) -> Seq<Seq<char>>
    decreases a.len(),
{
    if a.len() == 0 {
        Seq::empty()
    } else {
        let rest = strings_only(a.drop_last());
        if a.last() is Str {
            rest.push(str_of(a.last()))
        } else {
            rest
        }
    }
}

fn collect_strings(a: &Vec<JsonValue>) -> (r: Vec<String>)
    ensures
        strings_of(r@) == strings_only(a@),
{
    let mut out: Vec<String> = Vec::new();
    let mut i: usize = 0;
    while i < a.len()
        invariant
            i <= a.len(),
            strings_of(out@) == strings_only(a@.take(i as int)),
        decreases a.len() - i,
    {
        proof {
            assert(a@.take(i + 1).drop_last() =~= a@.take(i as int));
        }
        match &a[i] {
            JsonValue::Str(s) => {
                let ghost before = out@;
                out.push(copy_string(s));
                proof {
                    assert(strings_of(out@) =~= strings_of(before).push(s@));
                }
            },
            _ => {},
        }
        i = i + 1;
    }
    proof {
        assert(a@.take(a@.len() as int) =~= a@);
    }
    out
}

/// What a provider reads.
#[derive(Clone, Debug, PartialEq, Eq)]
pub enum ProviderKind {
    File { file: String, max_bytes: Option<usize> },
    Cmd { argv: Vec<String>, timeout_ms: u64 },
    Env { key: String },
    Tree { depth: u32, exclude: Vec<String>, max_entries: usize },
}

/// A parsed declaration: the provider, and whether its failure is
/// tolerated (the value is then null).
#[derive(Clone, Debug, PartialEq, Eq)]
pub struct ProviderConfig {
    pub optional: bool,
    pub kind: ProviderKind,
}

/// `ProviderKind` as plain values.
pub enum KindDecl {
    File { file: Seq<char>, max_bytes: Option<usize> },
    Cmd { argv: Seq<Seq<char>>, timeout_ms: u64 },
    Env { key: Seq<char> },
    Tree { depth: u32, exclude: Seq<Seq<char>>, max_entries: usize },
}

/// `ProviderConfig` as plain values.
pub struct ConfigDecl {
    pub optional: bool,
    pub kind: KindDecl,
}

impl View for ProviderKind {
    type V = KindDecl;

    open spec fn view(&self) -> KindDecl {
        match self {
            ProviderKind::File { file, max_bytes } => KindDecl::File {
                file: file@,
                max_bytes: *max_bytes,
            },
            ProviderKind::Cmd { argv, timeout_ms } => KindDecl::Cmd {
                argv: strings_of(argv@),
                timeout_ms: *timeout_ms,
            },
            ProviderKind::Env { key } => KindDecl::Env { key: key@ },
            ProviderKind::Tree { depth, exclude, max_entries } => KindDecl::Tree {
                depth: *depth,
                exclude: strings_of(exclude@),
                max_entries: *max_entries,
            },
        }
    }
}

impl View for ProviderConfig {
    type V = ConfigDecl;

    open spec fn view(&self) -> ConfigDecl {
        ConfigDecl { optional: self.optional, kind: self.kind@ }
    }
}

/// An unsigned entry as a `usize`, when it fits.
pub open spec fn as_usize(n: Option<u64>) -> Option<usize> {
    match n {
        Some(k) => if k <= usize::MAX {
            Some(k as usize)
        } else {
            None
        },
        None => None,
    }
}

/// An unsigned entry as a `u32`, when it fits.
pub open spec fn as_u32(n: Option<u64>) -> Option<u32> {
    match n {
        Some(k) => if k <= u32::MAX {
            Some(k as u32)
        } else {
            None
        },
        None => None,
    }
}

/// The provider of a `tree` table.
pub open spec fn tree_decl(inner: Seq<(String, JsonValue)>) -> KindDecl {
    KindDecl::Tree {
        depth: match as_u32(u64_of(lookup(inner, "depth"@))) {
            Some(d) => d,
            None => 2,
        },
        exclude: match lookup(inner, "exclude"@) {
            Some(JsonValue::Array(a)) => strings_only(a@),
            _ => Seq::empty(),
        },
        max_entries: match as_usize(u64_of(lookup(inner, "max_entries"@))) {
            Some(n) => n,
            None => 500,
        },
    }
}

/// The declaration `v` of the value called `name`, read as the first of
/// `file`, `cmd`, `env`, `tree` that it holds; `optional` defaults to
/// false, a command's timeout to 5000 ms, a tree's depth to 2 and its
/// entry cap to 500.
pub open spec fn config_of(name: Seq<char>, v: JsonValue) -> Result<ConfigDecl, DeriveErrorV> {
    match v {
        JsonValue::Object(m) => {
            let optional = match lookup(m@, "optional"@) {
                Some(JsonValue::Bool(b)) => b,
                _ => false,
            };
            match lookup(m@, "file"@) {
                Some(f) => match f {
                    JsonValue::Str(s) => Ok(
                        ConfigDecl {
                            optional,
                            kind: KindDecl::File {
                                file: s@,
                                max_bytes: as_usize(u64_of(lookup(m@, "max_bytes"@))),
                            },
                        },
                    ),
                    _ => Err(failed(name, "`file` must be a string"@)),
                },
                None => match lookup(m@, "cmd"@) {
                    Some(c) => match c {
                        JsonValue::Array(a) => if forall|i: int|
                            0 <= i < a@.len() ==> #[trigger] a@[i] is Str {
                            Ok(
                                ConfigDecl {
                                    optional,
                                    kind: KindDecl::Cmd {
                                        argv: strings_only(a@),
                                        timeout_ms: match u64_of(lookup(m@, "timeout_ms"@)) {
                                            Some(t) => t,
                                            None => 5000,
                                        },
                                    },
                                },
                            )
                        } else {
                            Err(failed(name, "`cmd` entries must be strings"@))
                        },
                        _ => Err(failed(name, "`cmd` must be an array of strings"@)),
                    },
                    None => match lookup(m@, "env"@) {
                        Some(e) => match e {
                            JsonValue::Str(s) => Ok(
                                ConfigDecl { optional, kind: KindDecl::Env { key: s@ } },
                            ),
                            _ => Err(failed(name, "`env` must be a string"@)),
                        },
                        None => match lookup(m@, "tree"@) {
                            Some(t) => match t {
                                JsonValue::Object(inner) => Ok(
                                    ConfigDecl { optional, kind: tree_decl(inner@) },
                                ),
                                _ => Err(failed(name, "`tree` must be a table"@)),
                            },
                            None => Err(DeriveErrorV::UnknownKind(name)),
                        },
                    },
                },
            }
        },
        _ => Err(failed(name, "expected a table"@)),
    }
}

proof fn lemma_strings_only_all(a: Seq<JsonValue>)
    requires
        forall|i: int| 0 <= i < a.len() ==> #[trigger] a[i] is Str,
    ensures
        strings_only(a) == a.map_values(|x: JsonValue| str_of(x)),
    decreases a.len(),
{
    if a.len() > 0 {
        let front = a.drop_last();
        assert forall|i: int| 0 <= i < front.len() implies #[trigger] front[i] is Str by {
            assert(front[i] == a[i]);
        }
        lemma_strings_only_all(front);
        assert(a.last() is Str);
        assert(front.map_values(|x: JsonValue| str_of(x)).push(str_of(a.last())) =~= a.map_values(
            |x: JsonValue| str_of(x),
        ));
    }
}

/// A table with no `file` entry and a `cmd` array of strings declares
/// that command: its arguments are the strings in order, its timeout is
/// the table's `timeout_ms` when that is an unsigned integer (5000 ms when
/// the entry is missing or anything else), and it is optional exactly
/// when the table's `optional` is `true`.
pub proof fn lemma_cmd_declaration(
    name: Seq<char>,
    entries: Vec<(String, JsonValue)>,
    args: Vec<JsonValue>,
)
    requires
        lookup(entries@, "file"@) is None,
        lookup(entries@, "cmd"@) == Some(JsonValue::Array(args)),
        forall|i: int| 0 <= i < args@.len() ==> #[trigger] args@[i] is Str,
    ensures
        config_of(name, JsonValue::Object(entries)) == Ok::<ConfigDecl, DeriveErrorV>(
            ConfigDecl {
                optional: optional_entry(entries@),
                kind: KindDecl::Cmd {
                    argv: args@.map_values(|x: JsonValue| str_of(x)),
                    timeout_ms: match lookup(entries@, "timeout_ms"@) {
                        Some(JsonValue::Number(Some(t))) => t,
                        _ => 5000,
                    },
                },
            },
        ),
{
    lemma_strings_only_all(args@);
}

/// What a declaration's boolean `optional` entry says; false when it is
/// missing or not a boolean.
pub open spec fn optional_entry(entries: Seq<(String, JsonValue)>) -> bool {
    match lookup(entries, "optional"@) {
        Some(JsonValue::Bool(b)) => b,
        _ => false,
    }
}

/// A table with a `file` entry declares a file, whatever else it holds:
/// the file is that string, and its byte cap is the table's `max_bytes`
/// when that is an unsigned integer that fits in `usize` (no cap
/// otherwise). A `file` entry that is not a string is refused.
pub proof fn lemma_file_declaration(name: Seq<char>, entries: Vec<(String, JsonValue)>)
    requires
        lookup(entries@, "file"@) is Some,
    ensures
        lookup(entries@, "file"@) matches Some(JsonValue::Str(f)) ==> config_of(
            name,
            JsonValue::Object(entries),
        ) == Ok::<ConfigDecl, DeriveErrorV>(
            ConfigDecl {
                optional: optional_entry(entries@),
                kind: KindDecl::File {
                    file: f@,
                    max_bytes: match lookup(entries@, "max_bytes"@) {
                        Some(JsonValue::Number(Some(n))) => if n <= usize::MAX {
                            Some(n as usize)
                        } else {
                            None
                        },
                        _ => None,
                    },
                },
            },
        ),
        !(lookup(entries@, "file"@) matches Some(JsonValue::Str(_))) ==> config_of(
            name,
            JsonValue::Object(entries),
        ) == Err::<ConfigDecl, DeriveErrorV>(failed(name, "`file` must be a string"@)),
{
}

/// A table with no `file` nor `cmd` entry and an `env` string declares
/// that environment variable; an `env` entry that is not a string is
/// refused.
pub proof fn lemma_env_declaration(name: Seq<char>, entries: Vec<(String, JsonValue)>)
    requires
        lookup(entries@, "file"@) is None,
        lookup(entries@, "cmd"@) is None,
        lookup(entries@, "env"@) is Some,
    ensures
        lookup(entries@, "env"@) matches Some(JsonValue::Str(k)) ==> config_of(
            name,
            JsonValue::Object(entries),
        ) == Ok::<ConfigDecl, DeriveErrorV>(
            ConfigDecl { optional: optional_entry(entries@), kind: KindDecl::Env { key: k@ } },
        ),
        !(lookup(entries@, "env"@) matches Some(JsonValue::Str(_))) ==> config_of(
            name,
            JsonValue::Object(entries),
        ) == Err::<ConfigDecl, DeriveErrorV>(failed(name, "`env` must be a string"@)),
{
}

/// A table with none of `file`, `cmd`, `env` and a `tree` table declares
/// a tree listing: its depth is the inner `depth` when that is an
/// unsigned integer that fits in `u32` (2 otherwise), its exclusions the
/// strings of the inner `exclude` array (none without one), and its entry
/// cap the inner `max_entries` when that is an unsigned integer that fits
/// in `usize` (500 otherwise). A `tree` entry that is not a table is
/// refused, and a table with none of the four kinds is of an unknown
/// kind.
pub proof fn lemma_tree_declaration(name: Seq<char>, entries: Vec<(String, JsonValue)>)
    requires
        lookup(entries@, "file"@) is None,
        lookup(entries@, "cmd"@) is None,
        lookup(entries@, "env"@) is None,
    ensures
        lookup(entries@, "tree"@) matches Some(JsonValue::Object(inner)) ==> config_of(
            name,
            JsonValue::Object(entries),
        ) == Ok::<ConfigDecl, DeriveErrorV>(
            ConfigDecl {
                optional: optional_entry(entries@),
                kind: KindDecl::Tree {
                    depth: match lookup(inner@, "depth"@) {
                        Some(JsonValue::Number(Some(n))) => if n <= u32::MAX {
                            n as u32
                        } else {
                            2
                        },
                        _ => 2,
                    },
                    exclude: match lookup(inner@, "exclude"@) {
                        Some(JsonValue::Array(a)) => strings_only(a@),
                        _ => Seq::empty(),
                    },
                    max_entries: match lookup(inner@, "max_entries"@) {
                        Some(JsonValue::Number(Some(n))) => if n <= usize::MAX {
                            n as usize
                        } else {
                            500
                        },
                        _ => 500,
                    },
                },
            },
        ),
        lookup(entries@, "tree"@) is Some && !(lookup(entries@, "tree"@) matches Some(
            JsonValue::Object(_),
        )) ==> config_of(name, JsonValue::Object(entries)) == Err::<ConfigDecl, DeriveErrorV>(
            failed(name, "`tree` must be a table"@),
        ),
        lookup(entries@, "tree"@) is None ==> config_of(name, JsonValue::Object(entries)) == Err::<
            ConfigDecl,
            DeriveErrorV,
        >(DeriveErrorV::UnknownKind(name)),
{
}

fn usize_exec(n: Option<u64>) -> (r: Option<usize>)
    ensures
        r == as_usize(n),
{
    match n {
        Some(k) => if k <= usize::MAX as u64 {
            Some(k as usize)
        } else {
            None
        },
        None => None,
    }
}

fn u32_exec(n: Option<u64>) -> (r: Option<u32>)
    ensures
        r == as_u32(n),
{
    match n {
        Some(k) => if k <= u32::MAX as u64 {
            Some(k as u32)
        } else {
            None
        },
        None => None,
    }
}

fn all_strings(a: &Vec<JsonValue>) -> (r: bool)
    ensures
        r == forall|i: int| 0 <= i < a@.len() ==> #[trigger] a@[i] is Str,
{
    let mut i: usize = 0;
    while i < a.len()
        invariant
            i <= a.len(),
            forall|j: int| 0 <= j < i ==> #[trigger] a@[j] is Str,
        decreases a.len() - i,
    {
        match &a[i] {
            JsonValue::Str(_) => {},
            _ => {
                return false;
            },
        }
        i = i + 1;
    }
    true
}

impl ProviderConfig {
    /// Reads the declaration `v` of the value called `name`.
    pub fn from_value(name: &str, v: &JsonValue) -> (r: Result<ProviderConfig, DeriveError>)
        ensures
            match (r, config_of(name@, *v)) {
                (Ok(c), Ok(w)) => c@ == w,
                (Err(e), Err(w)) => e@ == w,
                _ => false,
            },
    {
        proof {
            reveal_strlit("optional");
            reveal_strlit("file");
            reveal_strlit("max_bytes");
            reveal_strlit("cmd");
            reveal_strlit("timeout_ms");
            reveal_strlit("env");
            reveal_strlit("tree");
            reveal_strlit("depth");
            reveal_strlit("exclude");
            reveal_strlit("max_entries");
        }
        let m = match v {
            JsonValue::Object(m) => m,
            _ => {
                return Err(fail(name, "expected a table"));
            },
        };
        let optional = match get(m, "optional") {
            Some(JsonValue::Bool(b)) => *b,
            _ => false,
        };
        if let Some(f) = get(m, "file") {
            return match f {
                JsonValue::Str(s) => Ok(
                    ProviderConfig {
                        optional,
                        kind: ProviderKind::File {
                            file: copy_string(s),
                            max_bytes: usize_exec(u64_exec(get(m, "max_bytes"))),
                        },
                    },
                ),
                _ => Err(fail(name, "`file` must be a string")),
            };
        }
        if let Some(c) = get(m, "cmd") {
            return match c {
                JsonValue::Array(a) => {
                    if all_strings(a) {
                        let argv = collect_strings(a);
                        let timeout_ms = match u64_exec(get(m, "timeout_ms")) {
                            Some(t) => t,
                            None => 5000,
                        };
                        Ok(ProviderConfig { optional, kind: ProviderKind::Cmd { argv, timeout_ms } })
                    } else {
                        Err(fail(name, "`cmd` entries must be strings"))
                    }
                },
                _ => Err(fail(name, "`cmd` must be an array of strings")),
            };
        }
        if let Some(e) = get(m, "env") {
            return match e {
                JsonValue::Str(s) => Ok(
                    ProviderConfig { optional, kind: ProviderKind::Env { key: copy_string(s) } },
                ),
                _ => Err(fail(name, "`env` must be a string")),
            };
        }
        if let Some(t) = get(m, "tree") {
            return match t {
                JsonValue::Object(inner) => {
                    let depth = match u32_exec(u64_exec(get(inner, "depth"))) {
                        Some(d) => d,
                        None => 2,
                    };
                    let exclude = match get(inner, "exclude") {
                        Some(JsonValue::Array(a)) => collect_strings(a),
                        _ => {
                            let e: Vec<String> = Vec::new();
                            proof {
                                assert(strings_of(e@) =~= Seq::<Seq<char>>::empty());
                            }
                            e
                        },
                    };
                    let max_entries = match usize_exec(u64_exec(get(inner, "max_entries"))) {
                        Some(n) => n,
                        None => 500,
                    };
                    proof {
                        assert(strings_of(exclude@) == match lookup(inner@, "exclude"@) {
                            Some(JsonValue::Array(a)) => strings_only(a@),
                            _ => Seq::<Seq<char>>::empty(),
                        });
                    }
                    Ok(
                        ProviderConfig {
                            optional,
                            kind: ProviderKind::Tree { depth, exclude, max_entries },
                        },
                    )
                },
                _ => Err(fail(name, "`tree` must be a table")),
            };
        }
        Err(DeriveError::UnknownKind(name.to_string()))
    }
}

/// Reading files and listing the project tree, as the providers need.
///
/// `reads` and `lists` relate each call to what it may answer; an
/// implementation that says nothing of them leaves every answer possible.
pub trait FsProvider {
    /// Whether `read` is an answer this file system may give for the file
    /// at `path`.
    open spec fn reads(&self, path: Seq<char>, read: Result<Seq<u8>, Seq<char>>) -> bool {
        true
    }

    /// Whether `listed` is an answer this file system may give for the
    /// tree under `root`, `depth` levels down, without what `exclude`
    /// names.
    open spec fn lists(
        &self,
        root: Seq<char>,
        depth: u32,
        exclude: Seq<Seq<char>>,
        listed: Result<Seq<Seq<char>>, Seq<char>>,
    ) -> bool {
        true
    }

    /// The bytes of the file at `path`, or why it could not be read.
    fn read_file(&self, path: &str) -> (r: Result<Vec<u8>, String>)
        ensures
            self.reads(path@, read_view(r)),
    ;

    /// The paths under `root`, at most `depth` levels down, leaving out
    /// those that `exclude` names; or why the tree could not be walked.
    fn list_tree(&self, root: &str, depth: u32, exclude: &Vec<String>) -> (r: Result<
        Vec<String>,
        String,
    >)
        ensures
            self.lists(root@, depth, strings_of(exclude@), listed_view(r)),
    ;
}

/// What a finished command left: its stdout and its exit status, when
/// it exited with one.
#[derive(Debug)]
pub struct CmdOutcome {
    pub stdout: Vec<u8>,
    pub exit_code: Option<i32>,
}

/// Running an argv command in a directory, with a timeout.
///
/// `runs` relates each call to what it may answer; an implementation
/// that says nothing of it leaves every answer possible.
pub trait CmdProvider {
    /// Whether `run` is an outcome this runner may give for `argv` run in
    /// `cwd` with a timeout of `timeout_ms` milliseconds.
    open spec fn runs(
        &self,
        cwd: Seq<char>,
        argv: Seq<Seq<char>>,
        timeout_ms: u64,
        run: Result<(Seq<u8>, Option<i32>), DeriveErrorV>,
    ) -> bool {
        true
    }

    /// Runs `argv` in `cwd`, giving up after `timeout_ms` milliseconds.
    fn run(&self, cwd: &str, argv: &Vec<String>, timeout_ms: u64) -> (r: Result<
        CmdOutcome,
        DeriveError,
    >)
        ensures
            self.runs(cwd@, strings_of(argv@), timeout_ms, outcome_view(r)),
    ;
}

/// Reading environment variables.
///
/// `gets` relates each call to what it may answer; an implementation
/// that says nothing of it leaves every answer possible.
pub trait EnvProvider {
    /// Whether `got` is an answer this environment may give for `key`.
    open spec fn gets(&self, key: Seq<char>, got: Option<Seq<char>>) -> bool {
        true
    }

    /// The value of the variable `key`, if it is set.
    fn get(&self, key: &str) -> (r: Option<String>)
        ensures
            self.gets(key@, got_view(r)),
    ;
}

/// The message `String::from_utf8` gives for bytes that are not UTF-8.
pub uninterp spec fn utf8_error(bytes: Seq<u8>) -> Seq<char>;

/// `String::from_utf8`: the text the bytes encode when they are valid
/// UTF-8 (what its documentation promises), else the message of its
/// error.
#[verifier::external_body]
fn decode_utf8_exec(bytes: Vec<u8>) -> (r: Result<String, String>)
    ensures
        match r {
            Ok(s) => valid_utf8(bytes@) && s@ == decode_utf8(bytes@),
            Err(m) => !valid_utf8(bytes@) && m@ == utf8_error(bytes@),
        },
{
    match String::from_utf8(bytes) {
        Ok(s) => Ok(s),
        Err(e) => Err(e.to_string()),
    }
}

/// The text of `bytes` for the value called `name`.
pub open spec fn text_of(name: Seq<char>, bytes: Seq<u8>) -> Result<Seq<char>, DeriveErrorV> {
    if valid_utf8(bytes) {
        Ok(decode_utf8(bytes))
    } else {
        Err(failed(name, utf8_error(bytes)))
    }
}

/// A resolution result as plain values.
pub open spec fn answer_view(r: Result<String, DeriveError>) -> Result<Seq<char>, DeriveErrorV> {
    match r {
        Ok(s) => Ok(s@),
        Err(e) => Err(e@),
    }
}

/// What reading a file gave, as plain values.
pub open spec fn read_view(r: Result<Vec<u8>, String>) -> Result<Seq<u8>, Seq<char>> {
    match r {
        Ok(b) => Ok(b@),
        Err(m) => Err(m@),
    }
}

/// A variable's value, if set, as plain values.
pub open spec fn got_view(o: Option<String>) -> Option<Seq<char>> {
    match o {
        Some(v) => Some(v@),
        None => None,
    }
}

/// What walking a tree gave, as plain values.
pub open spec fn listed_view(r: Result<Vec<String>, String>) -> Result<Seq<Seq<char>>, Seq<char>> {
    match r {
        Ok(es) => Ok(strings_of(es@)),
        Err(m) => Err(m@),
    }
}

/// The value of a `file` provider from what reading the file gave: the
/// bytes, cut to `max_bytes` when longer, as UTF-8 text.
pub open spec fn file_value(name: Seq<char>, read: Result<Seq<u8>, Seq<char>>, max_bytes: Option<
    usize,
>) -> Result<Seq<char>, DeriveErrorV> {
    match read {
        Err(reason) => Err(failed(name, reason)),
        Ok(bytes) => {
            let kept = match max_bytes {
                Some(cap) => if bytes.len() > cap {
                    bytes.take(cap as int)
                } else {
                    bytes
                },
                None => bytes,
            };
            text_of(name, kept)
        },
    }
}

/// A file no longer than its byte cap (or with no cap) is read whole; a
/// longer one is cut to exactly the cap before it is decoded; a read that
/// failed fails the value with the reader's reason.
pub proof fn lemma_file_value_cap(name: Seq<char>, bytes: Seq<u8>, cap: usize, reason: Seq<char>)
    ensures
        file_value(name, Ok(bytes), None) == text_of(name, bytes),
        bytes.len() <= cap ==> file_value(name, Ok(bytes), Some(cap)) == text_of(name, bytes),
        bytes.len() > cap ==> file_value(name, Ok(bytes), Some(cap)) == text_of(
            name,
            bytes.subrange(0, cap as int),
        ),
        file_value(name, Err(reason), Some(cap)) == Err::<Seq<char>, DeriveErrorV>(
            failed(name, reason),
        ),
{
}

/// The value of a `file` provider from what reading the file gave.
pub fn file_answer(name: &str, read: Result<Vec<u8>, String>, max_bytes: Option<usize>) -> (r:
    Result<String, DeriveError>)
    ensures
        answer_view(r) == file_value(name@, read_view(read), max_bytes),
{
    match read {
        Err(reason) => Err(DeriveError::ProviderFailed { name: name.to_string(), reason }),
        Ok(bytes) => {
            let mut bytes = bytes;
            if let Some(cap) = max_bytes {
                if bytes.len() > cap {
                    bytes.truncate(cap);
                }
            }
            match decode_utf8_exec(bytes) {
                Ok(s) => Ok(s),
                Err(m) => Err(DeriveError::ProviderFailed { name: name.to_string(), reason: m }),
            }
        },
    }
}

/// A command outcome as plain values.
pub open spec fn outcome_view(o: Result<CmdOutcome, DeriveError>) -> Result<
    (Seq<u8>, Option<i32>),
    DeriveErrorV,
> {
    match o {
        Ok(c) => Ok((c.stdout@, c.exit_code)),
        Err(e) => Err(e@),
    }
}

/// The value of a `cmd` provider from how the command ended: a failure
/// to run passes through; a nonzero exit status fails; otherwise stdout
/// as UTF-8 text without trailing whitespace.
pub open spec fn cmd_value(name: Seq<char>, run: Result<(Seq<u8>, Option<i32>), DeriveErrorV>) -> Result<
    Seq<char>,
    DeriveErrorV,
> {
    match run {
        Err(e) => Err(e),
        Ok((stdout, code)) => match code {
            Some(c) if c != 0 => Err(
                failed(name, "cmd exited with status "@ + dec_signed(c as int)),
            ),
            _ => match text_of(name, stdout) {
                Ok(s) => Ok(trim_end(s)),
                Err(e) => Err(e),
            },
        },
    }
}

/// A command that exits with a non-zero status fails the value with that
/// status in the reason; one that exits with status 0, or without a
/// status, gives its output as text with trailing whitespace removed.
pub proof fn lemma_cmd_value_status(name: Seq<char>, out: Seq<u8>, code: i32)
    ensures
        code != 0 ==> cmd_value(name, Ok((out, Some(code)))) == Err::<Seq<char>, DeriveErrorV>(
            failed(name, "cmd exited with status "@ + dec_signed(code as int)),
        ),
        code == 0 ==> cmd_value(name, Ok((out, Some(code)))) == cmd_value(name, Ok((out, None))),
        valid_utf8(out) ==> cmd_value(name, Ok((out, None))) == Ok::<Seq<char>, DeriveErrorV>(
            trim_end(decode_utf8(out)),
        ),
{
}

/// The value of a `cmd` provider from how the command ended.
pub fn cmd_answer(name: &str, run: Result<CmdOutcome, DeriveError>) -> (r: Result<String, DeriveError>)
    ensures
        answer_view(r) == cmd_value(name@, outcome_view(run)),
{
    proof {
        reveal_strlit("cmd exited with status ");
    }
    let outcome = match run {
        Err(e) => {
            return Err(e);
        },
        Ok(o) => o,
    };
    if let Some(code) = outcome.exit_code {
        if code != 0 {
            let mut v = chars_of("cmd exited with status ");
            append(&mut v, &fmt_i64(code as i64));
            return Err(DeriveError::ProviderFailed { name: name.to_string(), reason: string_of(&v) });
        }
    }
    match decode_utf8_exec(outcome.stdout) {
        Ok(s) => Ok(string_of(&v_trim_end(&chars_of(s.as_str())))),
        Err(m) => Err(DeriveError::ProviderFailed { name: name.to_string(), reason: m }),
    }
}

/// The value of an `env` provider from the variable's value, if set.
pub open spec fn env_value(name: Seq<char>, key: Seq<char>, got: Option<Seq<char>>) -> Result<
    Seq<char>,
    DeriveErrorV,
> {
    match got {
        Some(v) => Ok(v),
        None => Err(failed(name, "env var `"@ + key + "` is not set"@)),
    }
}

/// A set variable gives its value unchanged; an unset one fails the value,
/// naming the variable.
pub proof fn lemma_env_value(name: Seq<char>, key: Seq<char>, v: Seq<char>)
    ensures
        env_value(name, key, Some(v)) == Ok::<Seq<char>, DeriveErrorV>(v),
        env_value(name, key, None) == Err::<Seq<char>, DeriveErrorV>(
            failed(name, "env var `"@ + key + "` is not set"@),
        ),
{
}

/// The value of an `env` provider from the variable's value, if set.
pub fn env_answer(name: &str, key: &str, got: Option<String>) -> (r: Result<String, DeriveError>)
    ensures
        answer_view(r) == env_value(name@, key@, got_view(got)),
{
    proof {
        reveal_strlit("env var `");
        reveal_strlit("` is not set");
    }
    match got {
        Some(v) => Ok(v),
        None => {
            let mut m = chars_of("env var `");
            append(&mut m, &chars_of(key));
            append(&mut m, &chars_of("` is not set"));
            Err(DeriveError::ProviderFailed { name: name.to_string(), reason: string_of(&m) })
        },
    }
}

/// The listing of a tree: each path relative to `root`, one per line.
pub open spec fn tree_text(root: Seq<char>, es: Seq<Seq<char>>) -> Seq<char>
    decreases es.len(),
{
    if es.len() == 0 {
        Seq::empty()
    } else {
        tree_text(root, es.drop_last()) + relative_to(root, es.last()) + seq!['\n']
    }
}

/// The value of a `tree` provider from what walking the tree gave: the
/// first `max_entries` paths, listed.
pub open spec fn tree_value(
    name: Seq<char>,
    root: Seq<char>,
    listed: Result<Seq<Seq<char>>, Seq<char>>,
    max_entries: usize,
) -> Result<Seq<char>, DeriveErrorV> {
    match listed {
        Err(reason) => Err(failed(name, reason)),
        Ok(es) => Ok(
            tree_text(
                root,
                if es.len() > max_entries {
                    es.take(max_entries as int)
                } else {
                    es
                },
            ),
        ),
    }
}

/// The value of a `tree` provider from what walking the tree gave.
pub fn tree_answer(name: &str, root: &str, listed: Result<Vec<String>, String>, max_entries: usize) -> (r:
    Result<String, DeriveError>)
    ensures
        answer_view(r) == tree_value(name@, root@, listed_view(listed), max_entries),
{
    let entries = match listed {
        Err(reason) => {
            return Err(DeriveError::ProviderFailed { name: name.to_string(), reason });
        },
        Ok(es) => es,
    };
    let n = if entries.len() > max_entries {
        max_entries
    } else {
        entries.len()
    };
    let ghost kept = strings_of(entries@).take(n as int);
    proof {
        assert(kept =~= (if strings_of(entries@).len() > max_entries {
            strings_of(entries@).take(max_entries as int)
        } else {
            strings_of(entries@)
        }));
    }
    let rc = chars_of(root);
    let mut buf: Vec<char> = Vec::new();
    let mut i: usize = 0;
    while i < n
        invariant
            i <= n <= entries.len(),
            rc@ == root@,
            buf@ == tree_text(root@, kept.take(i as int)),
            kept == strings_of(entries@).take(n as int),
        decreases n - i,
    {
        proof {
            assert(kept.take(i + 1).drop_last() =~= kept.take(i as int));
            assert(kept.take(i + 1).last() == entries@[i as int]@);
        }
        let rel = relative_exec(&rc, &chars_of(entries[i].as_str()));
        append(&mut buf, &rel);
        buf.push('\n');
        proof {
            assert(buf@ =~= tree_text(root@, kept.take(i + 1)));
        }
        i = i + 1;
    }
    proof {
        assert(kept.take(n as int) =~= kept);
    }
    Ok(string_of(&buf))
}

/// A directory entry called `name` is left out of a tree listing when it
/// is, or contains, one of the `exclude` words.
pub open spec fn excluded(name: Seq<char>, exclude: Seq<String>) -> bool {
    exists|i: int| 0 <= i < exclude.len() && contains(name, #[trigger] exclude[i]@)
}

/// Whether the entry called `name` is left out of a tree listing.
pub fn is_excluded(name: &str, exclude: &Vec<String>) -> (r: bool)
    ensures
        r == excluded(name@, exclude@),
{
    let nc = chars_of(name);
    let mut i: usize = 0;
    while i < exclude.len()
        invariant
            i <= exclude.len(),
            nc@ == name@,
            forall|j: int| 0 <= j < i ==> !contains(name@, #[trigger] exclude@[j]@),
        decreases exclude.len() - i,
    {
        if contains_exec(&nc, &chars_of(exclude[i].as_str())) {
            return true;
        }
        i = i + 1;
    }
    false
}

/// What `resolve_one` may give for the declaration `c` of the value
/// called `name`: the value made of some answer of the provider it
/// names. An empty argv fails without running anything.
pub open spec fn answered(
    name: Seq<char>,
    root: Seq<char>,
    c: ConfigDecl,
    r: Result<Seq<char>, DeriveErrorV>,
) -> bool {
    match c.kind {
        KindDecl::File { file, max_bytes } => exists|read: Result<Seq<u8>, Seq<char>>|
            r == #[trigger] file_value(name, read, max_bytes),
        KindDecl::Cmd { argv, timeout_ms } => if argv.len() == 0 {
            r == Err::<Seq<char>, DeriveErrorV>(failed(name, "cmd argv must be non-empty"@))
        } else {
            exists|run: Result<(Seq<u8>, Option<i32>), DeriveErrorV>|
                r == #[trigger] cmd_value(name, run)
        },
        KindDecl::Env { key } => exists|got: Option<Seq<char>>|
            r == #[trigger] env_value(name, key, got),
        KindDecl::Tree { depth, exclude, max_entries } => exists|
            listed: Result<Seq<Seq<char>>, Seq<char>>,
        | r == #[trigger] tree_value(name, root, listed, max_entries),
    }
}

/// Resolved values as plain values: each name with its text, or nothing
/// where the value is null.
pub open spec fn resolved_view(v: Seq<(String, Option<String>)>) -> Seq<
    (Seq<char>, Option<Seq<char>>),
> {
    v.map_values(|e: (String, Option<String>)| (e.0@, got_view(e.1)))
}

/// The first `n` declarations resolved in order, given the answer for
/// each: a declaration that does not parse stops everything; a failed
/// optional value is null; a failed required one stops everything.
pub open spec fn resolved(
    specs: Seq<(String, DerivedSpec)>,
    answers: Seq<Result<Seq<char>, DeriveErrorV>>,
    n: int,
) -> Result<Seq<(Seq<char>, Option<Seq<char>>)>, DeriveErrorV>
    decreases n,
{
    if n <= 0 {
        Ok(Seq::empty())
    } else {
        match resolved(specs, answers, n - 1) {
            Err(e) => Err(e),
            Ok(out) => {
                let name = specs[n - 1].0@;
                match config_of(name, specs[n - 1].1.0) {
                    Err(e) => Err(e),
                    Ok(c) => match answers[n - 1] {
                        Ok(v) => Ok(out.push((name, Some(v)))),
                        Err(e) => if c.optional {
                            Ok(out.push((name, None)))
                        } else {
                            Err(e)
                        },
                    },
                }
            },
        }
    }
}

proof fn lemma_resolved_prefix(
    specs: Seq<(String, DerivedSpec)>,
    a: Seq<Result<Seq<char>, DeriveErrorV>>,
    b: Seq<Result<Seq<char>, DeriveErrorV>>,
    n: int,
)
    requires
        forall|j: int| 0 <= j < n ==> a[j] == b[j],
    ensures
        resolved(specs, a, n) == resolved(specs, b, n),
    decreases n,
{
    if n > 0 {
        lemma_resolved_prefix(specs, a, b, n - 1);
    }
}

proof fn lemma_resolved_err_stays(
    specs: Seq<(String, DerivedSpec)>,
    a: Seq<Result<Seq<char>, DeriveErrorV>>,
    k: int,
    n: int,
)
    requires
        k <= n,
        resolved(specs, a, k) is Err,
    ensures
        resolved(specs, a, n) == resolved(specs, a, k),
    decreases n - k,
{
    if n > k {
        lemma_resolved_err_stays(specs, a, k, n - 1);
    }
}

/// Every declaration parses and is optional.
pub open spec fn all_optional(specs: Seq<(String, DerivedSpec)>) -> bool {
    forall|i: int|
        0 <= i < specs.len() ==> match #[trigger] config_of(specs[i].0@, specs[i].1.0) {
            Ok(c) => c.optional,
            Err(_) => false,
        }
}

/// When every declaration parses and is optional, resolving never fails,
/// whatever the providers answer.
pub proof fn lemma_optional_never_fails(
    specs: Seq<(String, DerivedSpec)>,
    answers: Seq<Result<Seq<char>, DeriveErrorV>>,
    n: int,
)
    requires
        all_optional(specs),
        n <= specs.len(),
    ensures
        resolved(specs, answers, n) is Ok,
    decreases n,
{
    if n > 0 {
        lemma_optional_never_fails(specs, answers, n - 1);
        assert(config_of(specs[n - 1].0@, specs[n - 1].1.0) is Ok);
    }
}

/// What the providers work with: the project root and the three kinds
/// of outside access.
pub struct DerivedResolver<'a, F, C, E> {
    pub project_root: String,
    pub fs: &'a F,
    pub cmd: &'a C,
    pub env: &'a E,
}

impl<'a, F: FsProvider, C: CmdProvider, E: EnvProvider> DerivedResolver<'a, F, C, E> {
    /// What `resolve_one` hands the providers and makes of what they answer
    /// for the declaration `c` of the value called `name`: the file at the
    /// project root joined with the declared path, the argv run in the
    /// project root with the declared timeout, the declared variable, or the
    /// tree under the project root with the declared depth and exclusions;
    /// the value is made of that answer. An empty argv fails without
    /// running anything.
    pub open spec fn asked(&self, name: Seq<char>, c: ConfigDecl, r: Result<Seq<char>, DeriveErrorV>) -> bool {
        match c.kind {
            KindDecl::File { file, max_bytes } => exists|read: Result<Seq<u8>, Seq<char>>|
                #[trigger] self.fs.reads(path_join(self.project_root@, file), read) && r == file_value(name, read, max_bytes),
            KindDecl::Cmd { argv, timeout_ms } => if argv.len() == 0 {
                r == Err::<Seq<char>, DeriveErrorV>(failed(name, "cmd argv must be non-empty"@))
            } else {
                exists|run: Result<(Seq<u8>, Option<i32>), DeriveErrorV>|
                    #[trigger] self.cmd.runs(self.project_root@, argv, timeout_ms, run) && r == cmd_value(name, run)
            },
            KindDecl::Env { key } => exists|got: Option<Seq<char>>|
                #[trigger] self.env.gets(key, got) && r == env_value(name, key, got),
            KindDecl::Tree { depth, exclude, max_entries } => exists|
                listed: Result<Seq<Seq<char>>, Seq<char>>,
            |
                #[trigger] self.fs.lists(self.project_root@, depth, exclude, listed) && r == tree_value(
                    name,
                    self.project_root@,
                    listed,
                    max_entries,
                ),
        }
    }

    /// What `answer` may be for the declaration `d`: anything
    /// `resolve_one` may give for it, from what the providers answer, when
    /// the declaration parses.
    pub open spec fn fits(&self, d: (String, DerivedSpec), answer: Result<Seq<char>, DeriveErrorV>) -> bool {
        match config_of(d.0@, d.1.0) {
            Ok(c) => answered(d.0@, self.project_root@, c, answer) && self.asked(d.0@, c, answer),
            Err(_) => true,
        }
    }

    /// Resolves one parsed declaration: asks the provider it names (a
    /// file under the project root, a command run there, a variable, the
    /// tree under the root) and makes the value of the answer.
    pub fn resolve_one(&self, name: &str, cfg: &ProviderConfig) -> (r: Result<String, DeriveError>)
        ensures
            answered(name@, self.project_root@, cfg@, answer_view(r)),
            self.asked(name@, cfg@, answer_view(r)),
    {
        match &cfg.kind {
            ProviderKind::File { file, max_bytes } => {
                let abs = join(self.project_root.as_str(), file.as_str());
                let read = self.fs.read_file(abs.as_str());
                let ghost rv = read_view(read);
                let r = file_answer(name, read, *max_bytes);
                proof {
                    assert(answer_view(r) == file_value(name@, rv, *max_bytes));
                    assert(cfg@.kind == KindDecl::File { file: file@, max_bytes: *max_bytes });
                    assert(self.fs.reads(path_join(self.project_root@, file@), rv));
                    assert(exists|read: Result<Seq<u8>, Seq<char>>|
                        #[trigger] self.fs.reads(path_join(self.project_root@, file@), read)
                            && answer_view(r) == file_value(name@, read, *max_bytes));
                    assert(cfg@.kind is File);
                    assert(cfg@.kind->File_file == file@);
                    assert(cfg@.kind->File_max_bytes == *max_bytes);
                    assert(self.asked(name@, cfg@, answer_view(r)) == (exists|read: Result<Seq<u8>, Seq<char>>|
                        #[trigger] self.fs.reads(path_join(self.project_root@, file@), read)
                            && answer_view(r) == file_value(name@, read, *max_bytes)));
                    assert(self.asked(name@, cfg@, answer_view(r)));
                }
                r
            },
            ProviderKind::Cmd { argv, timeout_ms } => {
                if argv.len() == 0 {
                    proof {
                        reveal_strlit("cmd argv must be non-empty");
                    }
                    return Err(fail(name, "cmd argv must be non-empty"));
                }
                let run = self.cmd.run(self.project_root.as_str(), argv, *timeout_ms);
                let ghost ov = outcome_view(run);
                let r = cmd_answer(name, run);
                proof {
                    assert(answer_view(r) == cmd_value(name@, ov));
                    assert(cfg@.kind == KindDecl::Cmd { argv: strings_of(argv@), timeout_ms: *timeout_ms });
                    assert(strings_of(argv@).len() > 0);
                    assert(self.cmd.runs(self.project_root@, strings_of(argv@), *timeout_ms, ov));
                    assert(cfg@.kind is Cmd);
                    assert(cfg@.kind->Cmd_argv == strings_of(argv@));
                    assert(cfg@.kind->Cmd_timeout_ms == *timeout_ms);
                    assert(self.asked(name@, cfg@, answer_view(r)) == (exists|run: Result<(Seq<u8>, Option<i32>), DeriveErrorV>|
                        #[trigger] self.cmd.runs(self.project_root@, strings_of(argv@), *timeout_ms, run)
                            && answer_view(r) == cmd_value(name@, run)));
                    assert(self.asked(name@, cfg@, answer_view(r)));
                }
                r
            },
            ProviderKind::Env { key } => {
                let got = self.env.get(key.as_str());
                let ghost gv = got_view(got);
                let r = env_answer(name, key.as_str(), got);
                proof {
                    assert(answer_view(r) == env_value(name@, key@, gv));
                    assert(self.env.gets(key@, gv));
                    assert(self.asked(name@, cfg@, answer_view(r)));
                }
                r
            },
            ProviderKind::Tree { depth, exclude, max_entries } => {
                let listed = self.fs.list_tree(self.project_root.as_str(), *depth, exclude);
                let ghost lv = listed_view(listed);
                let r = tree_answer(name, self.project_root.as_str(), listed, *max_entries);
                proof {
                    assert(answer_view(r) == tree_value(name@, self.project_root@, lv, *max_entries));
                    assert(cfg@.kind == KindDecl::Tree {
                        depth: *depth,
                        exclude: strings_of(exclude@),
                        max_entries: *max_entries,
                    });
                    assert(self.fs.lists(self.project_root@, *depth, strings_of(exclude@), lv));
                    assert(cfg@.kind is Tree);
                    assert(cfg@.kind->Tree_depth == *depth);
                    assert(cfg@.kind->Tree_exclude == strings_of(exclude@));
                    assert(cfg@.kind->Tree_max_entries == *max_entries);
                    assert(self.asked(name@, cfg@, answer_view(r)) == (exists|listed: Result<Seq<Seq<char>>, Seq<char>>|
                        #[trigger] self.fs.lists(self.project_root@, *depth, strings_of(exclude@), listed)
                            && answer_view(r) == tree_value(name@, self.project_root@, listed, *max_entries)));
                    assert(self.asked(name@, cfg@, answer_view(r)));
                }
                r
            },
        }
    }

    /// Resolves every declaration, in order, into a name and a value;
    /// an optional provider that fails gives null, any other failure, or
    /// a declaration that does not parse, stops with its error.
    pub fn resolve_all(&self, specs: &Vec<(String, DerivedSpec)>) -> (r: Result<
        Vec<(String, Option<String>)>,
        DeriveError,
    >)
        ensures
            exists|answers: Seq<Result<Seq<char>, DeriveErrorV>>|
                {
                    &&& answers.len() <= specs@.len()
                    &&& forall|i: int|
                        0 <= i < answers.len() ==> self.fits(
                            specs@[i],
                            #[trigger] answers[i],
                        )
                    &&& #[trigger] resolved(specs@, answers, specs@.len() as int) == match r {
                        Ok(v) => Ok(resolved_view(v@)),
                        Err(e) => Err(e@),
                    }
                },
            all_optional(specs@) ==> r is Ok,
    {
        let mut out: Vec<(String, Option<String>)> = Vec::new();
        let ghost mut answers: Seq<Result<Seq<char>, DeriveErrorV>> = Seq::empty();
        let ghost total = specs@.len() as int;
        let mut i: usize = 0;
        proof {
            assert(resolved_view(out@) =~= Seq::<(Seq<char>, Option<Seq<char>>)>::empty());
        }
        while i < specs.len()
            invariant
                i <= specs.len(),
                total == specs@.len(),
                answers.len() == i,
                forall|j: int|
                    0 <= j < answers.len() ==> self.fits(
                        specs@[j],
                        #[trigger] answers[j],
                    ),
                resolved(specs@, answers, i as int) == Ok::<
                    Seq<(Seq<char>, Option<Seq<char>>)>,
                    DeriveErrorV,
                >(resolved_view(out@)),
            decreases specs.len() - i,
        {
            let name = &specs[i].0;
            let cfg = match ProviderConfig::from_value(name.as_str(), &specs[i].1.0) {
                Ok(c) => c,
                Err(e) => {
                    proof {
                        lemma_resolved_err_stays(specs@, answers, i + 1, total);
                        if all_optional(specs@) {
                            lemma_optional_never_fails(specs@, answers, total);
                        }
                    }
                    return Err(e);
                },
            };
            let v = self.resolve_one(name.as_str(), &cfg);
            let ghost before = answers;
            let ghost prev = resolved_view(out@);
            proof {
                answers = answers.push(answer_view(v));
                lemma_resolved_prefix(specs@, answers, before, i as int);
            }
            match v {
                Ok(s) => {
                    let ghost sv = s@;
                    out.push((copy_string(name), Some(s)));
                    proof {
                        assert(resolved_view(out@) =~= prev.push((name@, Some(sv))));
                    }
                },
                Err(e) => {
                    if cfg.optional {
                        out.push((copy_string(name), None));
                        proof {
                            assert(resolved_view(out@) =~= prev.push((name@, None)));
                        }
                    } else {
                        proof {
                            lemma_resolved_err_stays(specs@, answers, i + 1, total);
                            if all_optional(specs@) {
                                lemma_optional_never_fails(specs@, answers, total);
                            }
                        }
                        return Err(e);
                    }
                },
            }
            i = i + 1;
        }
        proof {
            assert(resolved(specs@, answers, total) == Ok::<
                Seq<(Seq<char>, Option<Seq<char>>)>,
                DeriveErrorV,
            >(resolved_view(out@)));
        }
        Ok(out)
    }
}

} // verus!
