//! The OpenAPI field format: a small OpenAPI 3.1 YAML contract with a
//! title, a version, a server URL, endpoints and object schemas.

use vstd::prelude::*;
use crate::cursor::{cycle_wrap, wrap_index};
use crate::num::{dec, dec_signed, fmt_i64, fmt_u128, parse_unsigned, parse_unsigned_exec};
use crate::text::{
    append, chars_of, eq, has_prefix, has_suffix, lines, lines_exec, replace, replace_exec,
    starts_with, ends_with, strip_all_prefix, strip_all_prefix_exec, string_of, trim, trim_ch,
    trim_end, trim_end_ch, trim_start, v_trim, v_trim_ch, v_trim_end, v_trim_end_ch,
    v_trim_start, views, is_ws, lead_ws, trail_ws,
};

verus! {

/// An HTTP method.
#[derive(Clone, Copy, Debug, PartialEq, Eq, Structural)]
pub enum OpenApiMethod {
    Get,
    Post,
    Put,
    Patch,
    Delete,
}

/// The body of a request or a response.
#[derive(Clone, Debug, PartialEq, Eq)]
pub enum OpenApiBody {
    Empty,
    String,
    Integer,
    Number,
    Boolean,
    SchemaRef(String),
}

/// The type of a schema property.
#[derive(Clone, Copy, Debug, PartialEq, Eq, Structural)]
pub enum OpenApiPropType {
    String,
    Integer,
    Number,
    Boolean,
}

/// The format of a string property.
#[derive(Clone, Copy, Debug, PartialEq, Eq, Structural)]
pub enum OpenApiStringFormat {
    Plain,
    Email,
    Password,
    Uri,
}

/// One endpoint: a method on a path, with its request and response.
#[derive(Clone, Debug, PartialEq, Eq)]
pub struct OpenApiEndpoint {
    pub method: OpenApiMethod,
    pub path: String,
    pub request_content_type: String,
    pub request_body: OpenApiBody,
    pub response_status: u16,
    pub response_content_type: String,
    pub response_body: OpenApiBody,
}

/// A named object schema.
#[derive(Clone, Debug, PartialEq, Eq)]
pub struct OpenApiSchema {
    pub name: String,
    pub additional_properties: bool,
    pub properties: Vec<OpenApiSchemaProp>,
}

/// One property of a schema.
#[derive(Clone, Debug, PartialEq, Eq)]
pub struct OpenApiSchemaProp {
    pub name: String,
    pub kind: OpenApiPropType,
    pub required: bool,
    pub nullable: bool,
    pub format: OpenApiStringFormat,
    pub min: Option<i64>,
    pub max: Option<i64>,
    pub pattern: String,
    pub enum_values: Vec<String>,
}

/// The OpenAPI editor.
#[derive(Clone, Debug, PartialEq, Eq)]
pub struct OpenApiEditorState {
    pub form_field_index: usize,
    pub title: String,
    pub version: String,
    pub base_url: String,
    pub endpoints: Vec<OpenApiEndpoint>,
    pub endpoint_cursor: usize,
    pub schemas: Vec<OpenApiSchema>,
    pub schema_cursor: usize,
    pub prop_cursor: usize,
    pub preview_scroll: usize,
    pub mode: OpenApiEditorMode,
}

/// What the OpenAPI editor is doing.
#[derive(Clone, Debug, PartialEq, Eq)]
pub enum OpenApiEditorMode {
    Browse,
    Schemas,
    AddEndpoint,
    AddSchema { input: String },
    RenameSchema { input: String },
    AddProp { input: String },
    RenameProp { input: String },
    EditPropPattern { input: String },
    EditPropEnum { input: String },
    EditPropMin { input: String },
    EditPropMax { input: String },
    EditPath { input: String },
    EditTitle { input: String },
    EditVersion { input: String },
    EditBaseUrl { input: String },
}

/// A body as plain values.
pub enum BodyV {
    Empty,
    String,
    Integer,
    Number,
    Boolean,
    SchemaRef(Seq<char>),
}

impl View for OpenApiBody {
    type V = BodyV;

    open spec fn view(&self) -> BodyV {
        match self {
            OpenApiBody::Empty => BodyV::Empty,
            OpenApiBody::String => BodyV::String,
            OpenApiBody::Integer => BodyV::Integer,
            OpenApiBody::Number => BodyV::Number,
            OpenApiBody::Boolean => BodyV::Boolean,
            OpenApiBody::SchemaRef(s) => BodyV::SchemaRef(s@),
        }
    }
}

/// An endpoint as plain values.
pub struct EndpointV {
    pub method: OpenApiMethod,
    pub path: Seq<char>,
    pub request_content_type: Seq<char>,
    pub request_body: BodyV,
    pub response_status: u16,
    pub response_content_type: Seq<char>,
    pub response_body: BodyV,
}

impl View for OpenApiEndpoint {
    type V = EndpointV;

    open spec fn view(&self) -> EndpointV {
        EndpointV {
            method: self.method,
            path: self.path@,
            request_content_type: self.request_content_type@,
            request_body: self.request_body@,
            response_status: self.response_status,
            response_content_type: self.response_content_type@,
            response_body: self.response_body@,
        }
    }
}

pub open spec fn endpoints_view(s: Seq<OpenApiEndpoint>) -> Seq<EndpointV> {
    s.map_values(|e: OpenApiEndpoint| e@)
}

/// The endpoint a new contract starts with: `GET /` with JSON bodies.
pub open spec fn default_endpoint() -> EndpointV {
    EndpointV {
        method: OpenApiMethod::Get,
        path: "/"@,
        request_content_type: "application/json"@,
        request_body: BodyV::Empty,
        response_status: 200,
        response_content_type: "application/json"@,
        response_body: BodyV::Empty,
    }
}

impl OpenApiEndpoint {
    /// `GET /` with JSON bodies and status 200.
    pub fn default_endpoint() -> (r: OpenApiEndpoint)
        ensures
            r@ == default_endpoint(),
    {
        OpenApiEndpoint {
            method: OpenApiMethod::Get,
            path: "/".to_string(),
            request_content_type: "application/json".to_string(),
            request_body: OpenApiBody::Empty,
            response_status: 200,
            response_content_type: "application/json".to_string(),
            response_body: OpenApiBody::Empty,
        }
    }
}

impl OpenApiSchema {
    /// An empty schema called `Schema`.
    pub fn default_schema() -> (r: OpenApiSchema)
        ensures
            r.name@ == "Schema"@,
            !r.additional_properties,
            r.properties@.len() == 0,
    {
        OpenApiSchema {
            name: "Schema".to_string(),
            additional_properties: false,
            properties: Vec::new(),
        }
    }
}

// ---------------------------------------------------------------------
// Names.

pub open spec fn method_name(m: OpenApiMethod) -> Seq<char> {
    match m {
        OpenApiMethod::Get => "get"@,
        OpenApiMethod::Post => "post"@,
        OpenApiMethod::Put => "put"@,
        OpenApiMethod::Patch => "patch"@,
        OpenApiMethod::Delete => "delete"@,
    }
}

pub open spec fn method_upper(m: OpenApiMethod) -> Seq<char> {
    match m {
        OpenApiMethod::Get => "GET"@,
        OpenApiMethod::Post => "POST"@,
        OpenApiMethod::Put => "PUT"@,
        OpenApiMethod::Patch => "PATCH"@,
        OpenApiMethod::Delete => "DELETE"@,
    }
}

pub open spec fn prop_type_name(t: OpenApiPropType) -> Seq<char> {
    match t {
        OpenApiPropType::String => "string"@,
        OpenApiPropType::Integer => "integer"@,
        OpenApiPropType::Number => "number"@,
        OpenApiPropType::Boolean => "boolean"@,
    }
}

pub open spec fn string_format_name(f: OpenApiStringFormat) -> Option<Seq<char>> {
    match f {
        OpenApiStringFormat::Plain => None,
        OpenApiStringFormat::Email => Some("email"@),
        OpenApiStringFormat::Password => Some("password"@),
        OpenApiStringFormat::Uri => Some("uri"@),
    }
}

/// The lower-case name of a method.
pub fn openapi_method_str(m: OpenApiMethod) -> (r: &'static str)
    ensures
        r@ == method_name(m),
{
    match m {
        OpenApiMethod::Get => "get",
        OpenApiMethod::Post => "post",
        OpenApiMethod::Put => "put",
        OpenApiMethod::Patch => "patch",
        OpenApiMethod::Delete => "delete",
    }
}

fn method_upper_str(m: OpenApiMethod) -> (r: &'static str)
    ensures
        r@ == method_upper(m),
{
    match m {
        OpenApiMethod::Get => "GET",
        OpenApiMethod::Post => "POST",
        OpenApiMethod::Put => "PUT",
        OpenApiMethod::Patch => "PATCH",
        OpenApiMethod::Delete => "DELETE",
    }
}

/// The name of a property type.
pub fn openapi_prop_type_str(t: OpenApiPropType) -> (r: &'static str)
    ensures
        r@ == prop_type_name(t),
{
    match t {
        OpenApiPropType::String => "string",
        OpenApiPropType::Integer => "integer",
        OpenApiPropType::Number => "number",
        OpenApiPropType::Boolean => "boolean",
    }
}

/// The name of a string format; none for an unformatted string.
pub fn openapi_string_format_str(f: OpenApiStringFormat) -> (r: Option<&'static str>)
    ensures
        match r {
            Some(s) => string_format_name(f) == Some(s@),
            None => string_format_name(f) is None,
        },
{
    match f {
        OpenApiStringFormat::Plain => None,
        OpenApiStringFormat::Email => Some("email"),
        OpenApiStringFormat::Password => Some("password"),
        OpenApiStringFormat::Uri => Some("uri"),
    }
}

/// A string made safe inside double quotes in YAML: backslashes, then
/// double quotes, escaped with a backslash.
pub open spec fn yaml_esc(s: Seq<char>) -> Seq<char> {
    replace(replace(s, "\\"@, "\\\\"@), "\""@, "\\\""@)
}

/// Escapes a string for a double-quoted YAML scalar.
pub fn yaml_escape(s: &str) -> (r: String)
    ensures
        r@ == yaml_esc(s@),
{
    proof {
        reveal_strlit("\\");
        reveal_strlit("\"");
    }
    let a = replace_exec(&chars_of(s), &chars_of("\\"), &chars_of("\\\\"));
    string_of(&replace_exec(&a, &chars_of("\""), &chars_of("\\\"")))
}

fn yaml_escape_chars(s: &Vec<char>) -> (r: Vec<char>)
    ensures
        r@ == yaml_esc(s@),
{
    proof {
        reveal_strlit("\\");
        reveal_strlit("\"");
    }
    let a = replace_exec(s, &chars_of("\\"), &chars_of("\\\\"));
    replace_exec(&a, &chars_of("\""), &chars_of("\\\""))
}

/// The schema lines of a body, each after `indent`.
pub open spec fn body_schema(b: BodyV, indent: Seq<char>) -> Seq<char> {
    match b {
        BodyV::Empty => indent + "type: object\n"@,
        BodyV::String => indent + "type: string\n"@,
        BodyV::Integer => indent + "type: integer\n"@,
        BodyV::Number => indent + "type: number\n"@,
        BodyV::Boolean => indent + "type: boolean\n"@,
        BodyV::SchemaRef(n) => indent + "$ref: \"#/components/schemas/"@ + yaml_esc(n) + "\"\n"@,
    }
}

/// Writes the schema of a body.
pub fn render_openapi_body_schema(body: &OpenApiBody, indent: &str) -> (r: String)
    ensures
        r@ == body_schema(body@, indent@),
{
    let mut v = chars_of(indent);
    match body {
        OpenApiBody::Empty => append(&mut v, &chars_of("type: object\n")),
        OpenApiBody::String => append(&mut v, &chars_of("type: string\n")),
        OpenApiBody::Integer => append(&mut v, &chars_of("type: integer\n")),
        OpenApiBody::Number => append(&mut v, &chars_of("type: number\n")),
        OpenApiBody::Boolean => append(&mut v, &chars_of("type: boolean\n")),
        OpenApiBody::SchemaRef(n) => {
            append(&mut v, &chars_of("$ref: \"#/components/schemas/"));
            append(&mut v, &yaml_escape_chars(&chars_of(n.as_str())));
            append(&mut v, &chars_of("\"\n"));
        },
    }
    string_of(&v)
}

/// The short label of a body.
pub open spec fn body_label(b: BodyV) -> Seq<char> {
    match b {
        BodyV::Empty => "none"@,
        BodyV::String => "string"@,
        BodyV::Integer => "integer"@,
        BodyV::Number => "number"@,
        BodyV::Boolean => "boolean"@,
        BodyV::SchemaRef(n) => "$ref("@ + n + ")"@,
    }
}

/// Writes the short label of a body.
pub fn render_openapi_body_label(body: &OpenApiBody) -> (r: String)
    ensures
        r@ == body_label(body@),
{
    match body {
        OpenApiBody::Empty => "none".to_string(),
        OpenApiBody::String => "string".to_string(),
        OpenApiBody::Integer => "integer".to_string(),
        OpenApiBody::Number => "number".to_string(),
        OpenApiBody::Boolean => "boolean".to_string(),
        OpenApiBody::SchemaRef(n) => {
            let mut v = chars_of("$ref(");
            append(&mut v, &chars_of(n.as_str()));
            append(&mut v, &chars_of(")"));
            string_of(&v)
        },
    }
}

// ---------------------------------------------------------------------
// Cycling through choices.

pub open spec fn all_methods() -> Seq<OpenApiMethod> {
    seq![
        OpenApiMethod::Get,
        OpenApiMethod::Post,
        OpenApiMethod::Put,
        OpenApiMethod::Patch,
        OpenApiMethod::Delete,
    ]
}

pub open spec fn method_index(m: OpenApiMethod) -> int {
    match m {
        OpenApiMethod::Get => 0,
        OpenApiMethod::Post => 1,
        OpenApiMethod::Put => 2,
        OpenApiMethod::Patch => 3,
        OpenApiMethod::Delete => 4,
    }
}

/// The method `d` steps from `cur` in the order get, post, put, patch,
/// delete, wrapping around.
pub fn cycle_method(cur: OpenApiMethod, d: isize) -> (r: OpenApiMethod)
    ensures
        r == all_methods()[wrap_index(5, method_index(cur), d as int)],
{
    let all = [
        OpenApiMethod::Get,
        OpenApiMethod::Post,
        OpenApiMethod::Put,
        OpenApiMethod::Patch,
        OpenApiMethod::Delete,
    ];
    let idx: usize = match cur {
        OpenApiMethod::Get => 0,
        OpenApiMethod::Post => 1,
        OpenApiMethod::Put => 2,
        OpenApiMethod::Patch => 3,
        OpenApiMethod::Delete => 4,
    };
    let j = cycle_wrap(5, idx, d);
    proof {
        assert(all@ =~= all_methods());
    }
    all[j]
}

pub open spec fn all_prop_types() -> Seq<OpenApiPropType> {
    seq![
        OpenApiPropType::String,
        OpenApiPropType::Integer,
        OpenApiPropType::Number,
        OpenApiPropType::Boolean,
    ]
}

pub open spec fn prop_type_index(t: OpenApiPropType) -> int {
    match t {
        OpenApiPropType::String => 0,
        OpenApiPropType::Integer => 1,
        OpenApiPropType::Number => 2,
        OpenApiPropType::Boolean => 3,
    }
}

/// The property type `d` steps from `cur`, wrapping around.
pub fn cycle_prop_type(cur: OpenApiPropType, d: isize) -> (r: OpenApiPropType)
    ensures
        r == all_prop_types()[wrap_index(4, prop_type_index(cur), d as int)],
{
    let all = [
        OpenApiPropType::String,
        OpenApiPropType::Integer,
        OpenApiPropType::Number,
        OpenApiPropType::Boolean,
    ];
    let idx: usize = match cur {
        OpenApiPropType::String => 0,
        OpenApiPropType::Integer => 1,
        OpenApiPropType::Number => 2,
        OpenApiPropType::Boolean => 3,
    };
    let j = cycle_wrap(4, idx, d);
    proof {
        assert(all@ =~= all_prop_types());
    }
    all[j]
}

pub open spec fn all_string_formats() -> Seq<OpenApiStringFormat> {
    seq![
        OpenApiStringFormat::Plain,
        OpenApiStringFormat::Email,
        OpenApiStringFormat::Password,
        OpenApiStringFormat::Uri,
    ]
}

pub open spec fn string_format_index(f: OpenApiStringFormat) -> int {
    match f {
        OpenApiStringFormat::Plain => 0,
        OpenApiStringFormat::Email => 1,
        OpenApiStringFormat::Password => 2,
        OpenApiStringFormat::Uri => 3,
    }
}

/// The string format `d` steps from `cur`, wrapping around.
pub fn cycle_string_format(cur: OpenApiStringFormat, d: isize) -> (r: OpenApiStringFormat)
    ensures
        r == all_string_formats()[wrap_index(4, string_format_index(cur), d as int)],
{
    let all = [
        OpenApiStringFormat::Plain,
        OpenApiStringFormat::Email,
        OpenApiStringFormat::Password,
        OpenApiStringFormat::Uri,
    ];
    let idx: usize = match cur {
        OpenApiStringFormat::Plain => 0,
        OpenApiStringFormat::Email => 1,
        OpenApiStringFormat::Password => 2,
        OpenApiStringFormat::Uri => 3,
    };
    let j = cycle_wrap(4, idx, d);
    proof {
        assert(all@ =~= all_string_formats());
    }
    all[j]
}

pub open spec fn all_statuses() -> Seq<u16> {
    seq![200u16, 201, 204, 400, 401, 403, 404, 409, 422, 500, 502]
}

/// The index of the first `x` in `s`, or 0 when there is none.
pub open spec fn index_or_zero<T>(s: Seq<T>, x: T) -> int {
    if s.contains(x) {
        choose|i: int| 0 <= i < s.len() && s[i] == x && forall|j: int| 0 <= j < i ==> s[j] != x
    } else {
        0
    }
}

proof fn lemma_index_or_zero<T>(s: Seq<T>, x: T, i: int)
    requires
        0 <= i < s.len(),
        s[i] == x,
        forall|j: int| 0 <= j < i ==> s[j] != x,
    ensures
        index_or_zero(s, x) == i,
{
    assert(s.contains(x));
    let k = index_or_zero(s, x);
    assert(0 <= k < s.len() && s[k] == x && forall|j: int| 0 <= j < k ==> s[j] != x);
    if k < i {
        assert(s[k] != x);
    } else if i < k {
        assert(s[i] != x);
    }
}

proof fn lemma_index_absent<T>(s: Seq<T>, x: T)
    requires
        forall|j: int| 0 <= j < s.len() ==> s[j] != x,
    ensures
        index_or_zero(s, x) == 0,
{
    if s.contains(x) {
        let k = choose|k: int| 0 <= k < s.len() && s[k] == x;
        assert(s[k] != x);
    }
}

/// The response status `d` steps from `cur` among 200, 201, 204, 400,
/// 401, 403, 404, 409, 422, 500, 502, wrapping around; an unlisted
/// status counts as 200.
pub fn cycle_status(cur: u16, d: isize) -> (r: u16)
    ensures
        r == all_statuses()[wrap_index(11, index_or_zero(all_statuses(), cur), d as int)],
{
    let all: [u16; 11] = [200, 201, 204, 400, 401, 403, 404, 409, 422, 500, 502];
    proof {
        assert(all@ =~= all_statuses());
    }
    let mut idx: usize = 0;
    let mut k: usize = 0;
    while k < 11 && all[k] != cur
        invariant
            k <= 11,
            all@ == all_statuses(),
            forall|j: int| 0 <= j < k ==> all@[j] != cur,
        decreases 11 - k,
    {
        k = k + 1;
    }
    if k < 11 {
        idx = k;
        proof {
            lemma_index_or_zero(all_statuses(), cur, k as int);
        }
    } else {
        proof {
            lemma_index_absent(all_statuses(), cur);
        }
    }
    let j = cycle_wrap(11, idx, d);
    all[j]
}

pub open spec fn all_content_types() -> Seq<Seq<char>> {
    seq!["application/json"@, "text/plain"@, "application/xml"@, "text/markdown"@]
}

/// The content type `d` steps from `cur` among `application/json`,
/// `text/plain`, `application/xml`, `text/markdown`, wrapping around; an
/// unlisted one counts as `application/json`.
pub fn cycle_content_type(cur: &str, d: isize) -> (r: String)
    ensures
        r@ == all_content_types()[wrap_index(
            4,
            index_or_zero(all_content_types(), cur@),
            d as int,
        )],
{
    let all: Vec<Vec<char>> = vec![
        chars_of("application/json"),
        chars_of("text/plain"),
        chars_of("application/xml"),
        chars_of("text/markdown"),
    ];
    proof {
        assert(views(all@) =~= all_content_types());
    }
    let c = chars_of(cur);
    let mut idx: usize = 0;
    let mut k: usize = 0;
    while k < 4 && !eq(&all[k], &c)
        invariant
            k <= 4,
            all.len() == 4,
            views(all@) == all_content_types(),
            forall|j: int| 0 <= j < k ==> views(all@)[j] != c@,
        decreases 4 - k,
    {
        k = k + 1;
    }
    if k < 4 {
        idx = k;
        proof {
            assert(views(all@)[k as int] == all@[k as int]@);
            lemma_index_or_zero(all_content_types(), c@, k as int);
        }
    } else {
        proof {
            lemma_index_absent(all_content_types(), c@);
        }
    }
    let j = cycle_wrap(4, idx, d);
    string_of(&all[j])
}

/// The bodies to cycle through: none, the four scalar types, then a
/// reference to each schema with a non-blank name.
pub open spec fn body_choices(schemas: Seq<Seq<char>>) -> Seq<BodyV>
    decreases schemas.len(),
{
    if schemas.len() == 0 {
        seq![BodyV::Empty, BodyV::String, BodyV::Integer, BodyV::Number, BodyV::Boolean]
    } else {
        let prev = body_choices(schemas.drop_last());
        let n = trim(schemas.last());
        if n.len() > 0 {
            prev.push(BodyV::SchemaRef(n))
        } else {
            prev
        }
    }
}

proof fn lemma_body_choices_head(schemas: Seq<Seq<char>>)
    ensures
        body_choices(schemas).len() >= 5,
        body_choices(schemas)[0] == BodyV::Empty,
    decreases schemas.len(),
{
    if schemas.len() > 0 {
        lemma_body_choices_head(schemas.drop_last());
    }
}

pub open spec fn schema_names(s: Seq<OpenApiSchema>) -> Seq<Seq<char>> {
    s.map_values(|x: OpenApiSchema| x.name@)
}

/// The body `d` steps from `cur` among the body choices, wrapping
/// around; a reference to a schema that is gone counts as none.
pub open spec fn cycled_body(cur: BodyV, d: int, schemas: Seq<Seq<char>>) -> BodyV {
    let all = body_choices(schemas);
    let norm = if (cur is SchemaRef) && !all.contains(cur) {
        BodyV::Empty
    } else {
        cur
    };
    all[wrap_index(all.len() as int, index_or_zero(all, norm), d)]
}

fn clone_body(b: &OpenApiBody) -> (r: OpenApiBody)
    ensures
        r@ == b@,
{
    match b {
        OpenApiBody::Empty => OpenApiBody::Empty,
        OpenApiBody::String => OpenApiBody::String,
        OpenApiBody::Integer => OpenApiBody::Integer,
        OpenApiBody::Number => OpenApiBody::Number,
        OpenApiBody::Boolean => OpenApiBody::Boolean,
        OpenApiBody::SchemaRef(n) => OpenApiBody::SchemaRef(n.clone()),
    }
}

fn body_eq(a: &OpenApiBody, b: &OpenApiBody) -> (r: bool)
    ensures
        r == (a@ == b@),
{
    match (a, b) {
        (OpenApiBody::Empty, OpenApiBody::Empty) => true,
        (OpenApiBody::String, OpenApiBody::String) => true,
        (OpenApiBody::Integer, OpenApiBody::Integer) => true,
        (OpenApiBody::Number, OpenApiBody::Number) => true,
        (OpenApiBody::Boolean, OpenApiBody::Boolean) => true,
        (OpenApiBody::SchemaRef(x), OpenApiBody::SchemaRef(y)) => eq(
            &chars_of(x.as_str()),
            &chars_of(y.as_str()),
        ),
        _ => false,
    }
}

pub open spec fn bodies_view(s: Seq<OpenApiBody>) -> Seq<BodyV> {
    s.map_values(|b: OpenApiBody| b@)
}

fn position_body(all: &Vec<OpenApiBody>, x: &OpenApiBody) -> (r: Option<usize>)
    ensures
        match r {
            Some(i) => i < all.len() && all@[i as int]@ == x@ && forall|j: int|
                0 <= j < i ==> all@[j]@ != x@,
            None => forall|j: int| 0 <= j < all.len() ==> all@[j]@ != x@,
        },
{
    let mut k: usize = 0;
    while k < all.len()
        invariant
            k <= all.len(),
            forall|j: int| 0 <= j < k ==> all@[j]@ != x@,
        decreases all.len() - k,
    {
        if body_eq(&all[k], x) {
            return Some(k);
        }
        k = k + 1;
    }
    None
}

/// The body `d` steps from `cur` among none, the scalar types and the
/// references to the named schemas.
pub fn cycle_body_with_schemas(cur: OpenApiBody, d: isize, schemas: &Vec<OpenApiSchema>) -> (r:
    OpenApiBody)
    ensures
        r@ == cycled_body(cur@, d as int, schema_names(schemas@)),
{
    let mut all: Vec<OpenApiBody> = vec![
        OpenApiBody::Empty,
        OpenApiBody::String,
        OpenApiBody::Integer,
        OpenApiBody::Number,
        OpenApiBody::Boolean,
    ];
    proof {
        assert(bodies_view(all@) =~= body_choices(schema_names(schemas@).take(0)));
    }
    let mut i: usize = 0;
    while i < schemas.len()
        invariant
            i <= schemas.len(),
            bodies_view(all@) == body_choices(schema_names(schemas@).take(i as int)),
            all.len() >= 5,
        decreases schemas.len() - i,
    {
        let name = v_trim(&chars_of(schemas[i].name.as_str()));
        proof {
            let v = schema_names(schemas@).take(i + 1);
            assert(v.drop_last() =~= schema_names(schemas@).take(i as int));
            assert(v.last() == schemas@[i as int].name@);
        }
        if name.len() > 0 {
            let b = OpenApiBody::SchemaRef(string_of(&name));
            let ghost a = all@;
            all.push(b);
            proof {
                assert(bodies_view(all@) =~= bodies_view(a).push(b@));
            }
        }
        i = i + 1;
    }
    proof {
        assert(schema_names(schemas@).take(schemas.len() as int) =~= schema_names(schemas@));
    }
    let ghost allv = bodies_view(all@);
    let idx: usize = match position_body(&all, &cur) {
        Some(k) => {
            proof {
                assert(allv[k as int] == cur@);
                assert(allv.contains(cur@));
                lemma_index_or_zero(allv, cur@, k as int);
            }
            k
        },
        None => {
            proof {
                assert forall|j: int| 0 <= j < allv.len() implies allv[j] != cur@ by {
                    assert(allv[j] == all@[j]@);
                }
                lemma_index_absent(allv, cur@);
                assert(!allv.contains(cur@));
                lemma_body_choices_head(schema_names(schemas@));
                assert(allv[0] == BodyV::Empty);
                lemma_index_or_zero(allv, BodyV::Empty, 0);
            }
            0
        },
    };
    let j = cycle_wrap(all.len(), idx, d);
    clone_body(&all[j])
}

// ---------------------------------------------------------------------
// Reading a contract.

/// The state of a line-by-line read of a contract.
pub struct ApiScan {
    pub title: Seq<char>,
    pub version: Seq<char>,
    pub base_url: Seq<char>,
    pub endpoints: Seq<EndpointV>,
    pub path: Option<Seq<char>>,
    pub method: Option<OpenApiMethod>,
    pub status: u16,
    pub req_ct: Option<Seq<char>>,
    pub resp_ct: Option<Seq<char>>,
}

pub open spec fn or_json(o: Option<Seq<char>>) -> Seq<char> {
    match o {
        Some(c) => c,
        None => "application/json"@,
    }
}

/// The endpoints with the one being read added, once it has a path and a
/// method.
pub open spec fn flush(st: ApiScan) -> Seq<EndpointV> {
    match (st.path, st.method) {
        (Some(p), Some(m)) => st.endpoints.push(
            EndpointV {
                method: m,
                path: p,
                request_content_type: or_json(st.req_ct),
                request_body: BodyV::Empty,
                response_status: st.status,
                response_content_type: or_json(st.resp_ct),
                response_body: BodyV::Empty,
            },
        ),
        _ => st.endpoints,
    }
}

/// The value of a `key: "value"` line.
pub open spec fn header_value(t: Seq<char>, key: Seq<char>) -> Seq<char> {
    trim_ch(trim(strip_all_prefix(t, key)), '"')
}

/// The method a line of an endpoint opens.
pub open spec fn method_line(l: Seq<char>) -> Option<OpenApiMethod> {
    if has_prefix(l, "    get:"@) {
        Some(OpenApiMethod::Get)
    } else if has_prefix(l, "    post:"@) {
        Some(OpenApiMethod::Post)
    } else if has_prefix(l, "    put:"@) {
        Some(OpenApiMethod::Put)
    } else if has_prefix(l, "    patch:"@) {
        Some(OpenApiMethod::Patch)
    } else if has_prefix(l, "    delete:"@) {
        Some(OpenApiMethod::Delete)
    } else {
        None
    }
}

/// A content type line.
pub open spec fn is_content_type_line(t: Seq<char>) -> bool {
    t == "application/json:"@ || t == "text/plain:"@ || t == "application/xml:"@ || t
        == "text/markdown:"@
}

/// One line of a contract.
pub open spec fn api_step(st: ApiScan, line: Seq<char>) -> ApiScan {
    let l = trim_end(line);
    let t = trim_start(l);
    if has_prefix(t, "title:"@) {
        ApiScan { title: header_value(t, "title:"@), ..st }
    } else if has_prefix(t, "version:"@) {
        ApiScan { version: header_value(t, "version:"@), ..st }
    } else if has_prefix(t, "- url:"@) {
        ApiScan { base_url: header_value(t, "- url:"@), ..st }
    } else if has_prefix(l, "  /"@) && has_suffix(l, ":"@) {
        ApiScan {
            endpoints: flush(st),
            path: Some(trim_end_ch(trim(l), ':')),
            method: None,
            status: 200,
            req_ct: None,
            resp_ct: None,
            ..st
        }
    } else if let Some(m) = method_line(l) {
        ApiScan { method: Some(m), ..st }
    } else if has_prefix(t, "'"@) && has_suffix(t, "':"@) {
        match parse_unsigned(trim_ch(trim_end_ch(t, ':'), '\''), u16::MAX as nat) {
            Some(n) => ApiScan { status: n as u16, ..st },
            None => st,
        }
    } else if is_content_type_line(t) {
        let ct = trim_end_ch(t, ':');
        if st.req_ct is None {
            ApiScan { req_ct: Some(ct), ..st }
        } else {
            ApiScan { resp_ct: Some(ct), ..st }
        }
    } else {
        st
    }
}

/// A line that opens an endpoint's operation, four spaces, the method's
/// lower-case name and a colon, sets the method being read to that
/// method and leaves the rest of the reading as it was, whatever was read
/// before: `    get:` is GET, `    post:` POST, `    put:` PUT,
/// `    patch:` PATCH and `    delete:` DELETE.
pub proof fn lemma_method_line_sets_method(st: ApiScan, m: OpenApiMethod)
    ensures
        api_step(st, "    "@ + method_name(m) + ":"@) == (ApiScan { method: Some(m), ..st }),
        m == OpenApiMethod::Get ==> api_step(st, "    get:"@).method == Some(OpenApiMethod::Get),
        m == OpenApiMethod::Post ==> api_step(st, "    post:"@).method == Some(OpenApiMethod::Post),
        m == OpenApiMethod::Put ==> api_step(st, "    put:"@).method == Some(OpenApiMethod::Put),
        m == OpenApiMethod::Patch ==> api_step(st, "    patch:"@).method == Some(
            OpenApiMethod::Patch,
        ),
        m == OpenApiMethod::Delete ==> api_step(st, "    delete:"@).method == Some(
            OpenApiMethod::Delete,
        ),
{
    reveal_strlit("    ");
    reveal_strlit(":");
    reveal_strlit("get");
    reveal_strlit("post");
    reveal_strlit("put");
    reveal_strlit("patch");
    reveal_strlit("delete");
    reveal_strlit("    get:");
    reveal_strlit("    post:");
    reveal_strlit("    put:");
    reveal_strlit("    patch:");
    reveal_strlit("    delete:");
    reveal_strlit("title:");
    reveal_strlit("version:");
    reveal_strlit("- url:");
    reveal_strlit("  /");
    let line = "    "@ + method_name(m) + ":"@;
    let name = method_name(m);
    assert(line.len() == name.len() + 5);
    assert(line.last() == ':');
    assert(!is_ws(':'));
    assert(trail_ws(line) == 0);
    assert(trim_end(line) =~= line);
    assert(line[0] == ' ' && line[1] == ' ' && line[2] == ' ' && line[3] == ' ');
    assert(!is_ws(name[0])) by {
        assert(name[0] == 'g' || name[0] == 'p' || name[0] == 'd');
    }
    assert(line[4] == name[0]);
    reveal_with_fuel(lead_ws, 6);
    assert(lead_ws(line.skip(4)) == 0);
    assert(lead_ws(line.skip(3)) == 1) by {
        assert(line.skip(3).drop_first() =~= line.skip(4));
    }
    assert(lead_ws(line.skip(2)) == 2) by {
        assert(line.skip(2).drop_first() =~= line.skip(3));
    }
    assert(lead_ws(line.skip(1)) == 3) by {
        assert(line.skip(1).drop_first() =~= line.skip(2));
    }
    assert(lead_ws(line) == 4) by {
        assert(line.drop_first() =~= line.skip(1));
    }
    let t = trim_start(line);
    assert(t =~= line.skip(4));
    assert(t[0] == name[0]);
    assert(!has_prefix(t, "title:"@)) by {
        if has_prefix(t, "title:"@) {
            assert(t.take(6)[0] == "title:"@[0]);
        }
    }
    assert(!has_prefix(t, "version:"@)) by {
        if has_prefix(t, "version:"@) {
            assert(t.take(8)[0] == "version:"@[0]);
        }
    }
    assert(!has_prefix(t, "- url:"@)) by {
        if has_prefix(t, "- url:"@) {
            assert(t.take(6)[0] == "- url:"@[0]);
        }
    }
    assert(!has_prefix(line, "  /"@)) by {
        if has_prefix(line, "  /"@) {
            assert(line.take(3)[2] == "  /"@[2]);
        }
    }
    match m {
        OpenApiMethod::Get => {
            assert(line =~= "    get:"@);
            assert(has_prefix(line, "    get:"@)) by {
                assert(line.take(8) =~= line);
            }
        },
        OpenApiMethod::Post => {
            assert(line =~= "    post:"@);
            assert(!has_prefix(line, "    get:"@)) by {
                if has_prefix(line, "    get:"@) {
                    assert(line.take(8)[4] == "    get:"@[4]);
                }
            }
            assert(has_prefix(line, "    post:"@)) by {
                assert(line.take(9) =~= line);
            }
        },
        OpenApiMethod::Put => {
            assert(line =~= "    put:"@);
            assert(!has_prefix(line, "    get:"@)) by {
                if has_prefix(line, "    get:"@) {
                    assert(line.take(8)[4] == "    get:"@[4]);
                }
            }
            assert(!has_prefix(line, "    post:"@));
            assert(has_prefix(line, "    put:"@)) by {
                assert(line.take(8) =~= line);
            }
        },
        OpenApiMethod::Patch => {
            assert(line =~= "    patch:"@);
            assert(!has_prefix(line, "    get:"@)) by {
                if has_prefix(line, "    get:"@) {
                    assert(line.take(8)[4] == "    get:"@[4]);
                }
            }
            assert(!has_prefix(line, "    post:"@)) by {
                if has_prefix(line, "    post:"@) {
                    assert(line.take(9)[5] == "    post:"@[5]);
                }
            }
            assert(!has_prefix(line, "    put:"@)) by {
                if has_prefix(line, "    put:"@) {
                    assert(line.take(8)[5] == "    put:"@[5]);
                }
            }
            assert(has_prefix(line, "    patch:"@)) by {
                assert(line.take(10) =~= line);
            }
        },
        OpenApiMethod::Delete => {
            assert(line =~= "    delete:"@);
            assert(!has_prefix(line, "    get:"@)) by {
                if has_prefix(line, "    get:"@) {
                    assert(line.take(8)[4] == "    get:"@[4]);
                }
            }
            assert(!has_prefix(line, "    post:"@)) by {
                if has_prefix(line, "    post:"@) {
                    assert(line.take(9)[4] == "    post:"@[4]);
                }
            }
            assert(!has_prefix(line, "    put:"@)) by {
                if has_prefix(line, "    put:"@) {
                    assert(line.take(8)[4] == "    put:"@[4]);
                }
            }
            assert(!has_prefix(line, "    patch:"@)) by {
                if has_prefix(line, "    patch:"@) {
                    assert(line.take(10)[4] == "    patch:"@[4]);
                }
            }
            assert(has_prefix(line, "    delete:"@)) by {
                assert(line.take(11) =~= line);
            }
        },
    }
    assert(method_line(trim_end(line)) == Some(m));
}

/// Reading a contract always gives at least one endpoint (`GET /` when
/// the text declares none), and blank text gives the default title,
/// version and base URL.
pub proof fn lemma_contract_has_endpoint(src: Seq<char>)
    ensures
        parse_contract(src).3.len() > 0,
        default_endpoint().method == OpenApiMethod::Get,
        default_endpoint().path == "/"@,
        default_endpoint().response_status == 200,
        trim(src).len() == 0 ==> parse_contract(src) == (
            "API Contract"@,
            "1.0.0"@,
            "https://api.example.com"@,
            seq![default_endpoint()],
        ),
{
}

pub open spec fn api_init() -> ApiScan {
    ApiScan {
        title: "API Contract"@,
        version: "1.0.0"@,
        base_url: "https://api.example.com"@,
        endpoints: Seq::empty(),
        path: None,
        method: None,
        status: 200,
        req_ct: None,
        resp_ct: None,
    }
}

pub open spec fn api_scan(ls: Seq<Seq<char>>) -> ApiScan
    decreases ls.len(),
{
    if ls.len() == 0 {
        api_init()
    } else {
        api_step(api_scan(ls.drop_last()), ls.last())
    }
}

/// Title, version, base URL and endpoints of a contract. Blank text, and
/// anything the reader does not recognise, leave the defaults; a contract
/// without endpoints gets `GET /`.
pub open spec fn parse_contract(src: Seq<char>) -> (Seq<char>, Seq<char>, Seq<char>, Seq<EndpointV>) {
    if trim(src).len() == 0 {
        ("API Contract"@, "1.0.0"@, "https://api.example.com"@, seq![default_endpoint()])
    } else {
        let st = api_scan(lines(src));
        let eps = flush(st);
        (st.title, st.version, st.base_url, if eps.len() == 0 {
            seq![default_endpoint()]
        } else {
            eps
        })
    }
}

struct AState {
    title: Vec<char>,
    version: Vec<char>,
    base_url: Vec<char>,
    endpoints: Vec<OpenApiEndpoint>,
    path: Option<Vec<char>>,
    method: Option<OpenApiMethod>,
    status: u16,
    req_ct: Option<Vec<char>>,
    resp_ct: Option<Vec<char>>,
}

pub open spec fn copt(o: Option<Vec<char>>) -> Option<Seq<char>> {
    match o {
        Some(v) => Some(v@),
        None => None,
    }
}

impl AState {
    spec fn view(&self) -> ApiScan {
        ApiScan {
            title: self.title@,
            version: self.version@,
            base_url: self.base_url@,
            endpoints: endpoints_view(self.endpoints@),
            path: copt(self.path),
            method: self.method,
            status: self.status,
            req_ct: copt(self.req_ct),
            resp_ct: copt(self.resp_ct),
        }
    }
}

fn or_json_exec(o: &Option<Vec<char>>) -> (r: String)
    ensures
        r@ == or_json(copt(*o)),
{
    match o {
        Some(c) => string_of(c),
        None => "application/json".to_string(),
    }
}

fn flush_exec(st: &mut AState)
    ensures
        final(st).view() == (ApiScan { endpoints: flush(old(st).view()), ..old(st).view() }),
{
    match (&st.path, st.method) {
        (Some(p), Some(m)) => {
            let ep = OpenApiEndpoint {
                method: m,
                path: string_of(p),
                request_content_type: or_json_exec(&st.req_ct),
                request_body: OpenApiBody::Empty,
                response_status: st.status,
                response_content_type: or_json_exec(&st.resp_ct),
                response_body: OpenApiBody::Empty,
            };
            let ghost a = st.endpoints@;
            st.endpoints.push(ep);
            proof {
                assert(endpoints_view(st.endpoints@) =~= endpoints_view(a).push(ep@));
            }
        },
        _ => {},
    }
}

fn header_value_exec(t: &Vec<char>, key: &str) -> (r: Vec<char>)
    ensures
        r@ == header_value(t@, key@),
{
    v_trim_ch(&v_trim(&strip_all_prefix_exec(t, &chars_of(key))), '"')
}

fn method_line_exec(l: &Vec<char>) -> (r: Option<OpenApiMethod>)
    ensures
        r == method_line(l@),
{
    if starts_with(l, &chars_of("    get:")) {
        Some(OpenApiMethod::Get)
    } else if starts_with(l, &chars_of("    post:")) {
        Some(OpenApiMethod::Post)
    } else if starts_with(l, &chars_of("    put:")) {
        Some(OpenApiMethod::Put)
    } else if starts_with(l, &chars_of("    patch:")) {
        Some(OpenApiMethod::Patch)
    } else if starts_with(l, &chars_of("    delete:")) {
        Some(OpenApiMethod::Delete)
    } else {
        None
    }
}

fn api_step_exec(st: &mut AState, line: &Vec<char>)
    ensures
        final(st).view() == api_step(old(st).view(), line@),
{
    let l = v_trim_end(line);
    let t = v_trim_start(&l);
    if starts_with(&t, &chars_of("title:")) {
        st.title = header_value_exec(&t, "title:");
        return;
    }
    if starts_with(&t, &chars_of("version:")) {
        st.version = header_value_exec(&t, "version:");
        return;
    }
    if starts_with(&t, &chars_of("- url:")) {
        st.base_url = header_value_exec(&t, "- url:");
        return;
    }
    if starts_with(&l, &chars_of("  /")) && ends_with(&l, &chars_of(":")) {
        flush_exec(st);
        st.path = Some(v_trim_end_ch(&v_trim(&l), ':'));
        st.method = None;
        st.status = 200;
        st.req_ct = None;
        st.resp_ct = None;
        return;
    }
    match method_line_exec(&l) {
        Some(m) => {
            st.method = Some(m);
            return;
        },
        None => {},
    }
    if starts_with(&t, &chars_of("'")) && ends_with(&t, &chars_of("':")) {
        let code = v_trim_ch(&v_trim_end_ch(&t, ':'), '\'');
        match parse_unsigned_exec(&code, 65535) {
            Some(n) => {
                st.status = n as u16;
            },
            None => {},
        }
        return;
    }
    if eq(&t, &chars_of("application/json:")) || eq(&t, &chars_of("text/plain:")) || eq(
        &t,
        &chars_of("application/xml:"),
    ) || eq(&t, &chars_of("text/markdown:")) {
        let ct = v_trim_end_ch(&t, ':');
        if st.req_ct.is_none() {
            st.req_ct = Some(ct);
        } else {
            st.resp_ct = Some(ct);
        }
    }
}

/// Reads a contract: its title, version, base URL and endpoints.
pub fn parse_openapi_contract(src: &str) -> (r: (String, String, String, Vec<OpenApiEndpoint>))
    ensures
        (r.0@, r.1@, r.2@, endpoints_view(r.3@)) == parse_contract(src@),
{
    let s = chars_of(src);
    if v_trim(&s).len() == 0 {
        let eps = vec![OpenApiEndpoint::default_endpoint()];
        proof {
            assert(endpoints_view(eps@) =~= seq![default_endpoint()]);
        }
        return (
            "API Contract".to_string(),
            "1.0.0".to_string(),
            "https://api.example.com".to_string(),
            eps,
        );
    }
    let ls = lines_exec(&s);
    let mut st = AState {
        title: chars_of("API Contract"),
        version: chars_of("1.0.0"),
        base_url: chars_of("https://api.example.com"),
        endpoints: Vec::new(),
        path: None,
        method: None,
        status: 200,
        req_ct: None,
        resp_ct: None,
    };
    proof {
        assert(st.view().endpoints =~= Seq::<EndpointV>::empty());
        assert(views(ls@).take(0) =~= Seq::<Seq<char>>::empty());
    }
    let mut i: usize = 0;
    while i < ls.len()
        invariant
            i <= ls.len(),
            views(ls@) == lines(s@),
            st.view() == api_scan(views(ls@).take(i as int)),
        decreases ls.len() - i,
    {
        proof {
            assert(views(ls@).take(i + 1).drop_last() =~= views(ls@).take(i as int));
        }
        api_step_exec(&mut st, &ls[i]);
        i = i + 1;
    }
    proof {
        assert(views(ls@).take(ls.len() as int) =~= views(ls@));
    }
    flush_exec(&mut st);
    if st.endpoints.len() == 0 {
        st.endpoints.push(OpenApiEndpoint::default_endpoint());
        proof {
            assert(endpoints_view(st.endpoints@) =~= seq![default_endpoint()]);
        }
    }
    (string_of(&st.title), string_of(&st.version), string_of(&st.base_url), st.endpoints)
}

// ---------------------------------------------------------------------
// Writing a contract.

pub open spec fn strs_view(s: Seq<String>) -> Seq<Seq<char>> {
    s.map_values(|x: String| x@)
}

/// The names of the required properties with a non-blank name, trimmed.
pub open spec fn required_names(ps: Seq<OpenApiSchemaProp>) -> Seq<Seq<char>>
    decreases ps.len(),
{
    if ps.len() == 0 {
        Seq::empty()
    } else {
        let prev = required_names(ps.drop_last());
        let p = ps.last();
        if p.required && trim(p.name@).len() > 0 {
            prev.push(trim(p.name@))
        } else {
            prev
        }
    }
}

pub open spec fn list_items(prefix: Seq<char>, xs: Seq<Seq<char>>) -> Seq<char>
    decreases xs.len(),
{
    if xs.len() == 0 {
        Seq::empty()
    } else {
        list_items(prefix, xs.drop_last()) + prefix + xs.last() + seq!['\n']
    }
}

/// The non-blank enum values, trimmed, one per line.
pub open spec fn enum_items(xs: Seq<Seq<char>>) -> Seq<char>
    decreases xs.len(),
{
    if xs.len() == 0 {
        Seq::empty()
    } else {
        enum_items(xs.drop_last()) + if trim(xs.last()).len() > 0 {
            "            - "@ + trim(xs.last()) + seq!['\n']
        } else {
            Seq::empty()
        }
    }
}

pub open spec fn opt_line(key: Seq<char>, v: Option<i64>) -> Seq<char> {
    match v {
        Some(n) => key + dec_signed(n as int) + seq!['\n'],
        None => Seq::empty(),
    }
}

/// The bounds and format lines of a property, by its type.
pub open spec fn prop_constraints(p: OpenApiSchemaProp) -> Seq<char> {
    if p.kind == OpenApiPropType::String {
        (match string_format_name(p.format) {
            Some(f) => "          format: "@ + f + seq!['\n'],
            None => Seq::empty(),
        }) + opt_line("          minLength: "@, p.min) + opt_line("          maxLength: "@, p.max)
            + if trim(p.pattern@).len() > 0 {
            "          pattern: \""@ + yaml_esc(trim(p.pattern@)) + "\"\n"@
        } else {
            Seq::empty()
        }
    } else if p.kind == OpenApiPropType::Integer || p.kind == OpenApiPropType::Number {
        opt_line("          minimum: "@, p.min) + opt_line("          maximum: "@, p.max)
    } else {
        Seq::empty()
    }
}

/// The lines of one property; nothing for a blank name.
pub open spec fn prop_text(p: OpenApiSchemaProp) -> Seq<char> {
    let n = trim(p.name@);
    if n.len() == 0 {
        Seq::empty()
    } else {
        "        "@ + n + ":\n"@ + "          type: "@ + prop_type_name(p.kind) + seq!['\n'] + (if p.nullable {
            "          nullable: true\n"@
        } else {
            Seq::empty()
        }) + prop_constraints(p) + if p.enum_values@.len() > 0 {
            "          enum:\n"@ + enum_items(strs_view(p.enum_values@))
        } else {
            Seq::empty()
        }
    }
}

pub open spec fn props_text(ps: Seq<OpenApiSchemaProp>) -> Seq<char>
    decreases ps.len(),
{
    if ps.len() == 0 {
        Seq::empty()
    } else {
        props_text(ps.drop_last()) + prop_text(ps.last())
    }
}

/// The lines of one schema under `components.schemas`; nothing for a
/// blank name.
pub open spec fn schema_text(s: OpenApiSchema) -> Seq<char> {
    let name = trim(s.name@);
    let req = required_names(s.properties@);
    if name.len() == 0 {
        Seq::empty()
    } else {
        "    "@ + name + ":\n"@ + "      type: object\n"@ + "      additionalProperties: "@ + (if s.additional_properties {
            "true"@
        } else {
            "false"@
        }) + seq!['\n'] + (if req.len() > 0 {
            "      required:\n"@ + list_items("        - "@, req)
        } else {
            Seq::empty()
        }) + "      properties:\n"@ + props_text(s.properties@)
    }
}

fn opt_line_exec(out: &mut Vec<char>, key: &str, v: Option<i64>)
    ensures
        final(out)@ == old(out)@ + opt_line(key@, v),
{
    match v {
        Some(n) => {
            append(out, &chars_of(key));
            append(out, &fmt_i64(n));
            out.push('\n');
        },
        None => {},
    }
}

fn prop_constraints_exec(out: &mut Vec<char>, p: &OpenApiSchemaProp)
    ensures
        final(out)@ == old(out)@ + prop_constraints(*p),
{
    let ghost o = out@;
    match p.kind {
        OpenApiPropType::String => {
            match openapi_string_format_str(p.format) {
                Some(f) => {
                    append(out, &chars_of("          format: "));
                    append(out, &chars_of(f));
                    out.push('\n');
                },
                None => {},
            }
            opt_line_exec(out, "          minLength: ", p.min);
            opt_line_exec(out, "          maxLength: ", p.max);
            let pat = v_trim(&chars_of(p.pattern.as_str()));
            if pat.len() > 0 {
                append(out, &chars_of("          pattern: \""));
                append(out, &yaml_escape_chars(&pat));
                append(out, &chars_of("\"\n"));
            }
        },
        OpenApiPropType::Integer | OpenApiPropType::Number => {
            opt_line_exec(out, "          minimum: ", p.min);
            opt_line_exec(out, "          maximum: ", p.max);
        },
        OpenApiPropType::Boolean => {},
    }
    proof {
        assert(out@ =~= o + prop_constraints(*p));
    }
}

#[verifier::rlimit(40)]
fn prop_text_exec(out: &mut Vec<char>, p: &OpenApiSchemaProp)
    ensures
        final(out)@ == old(out)@ + prop_text(*p),
{
    let n = v_trim(&chars_of(p.name.as_str()));
    if n.len() == 0 {
        proof {
            assert(out@ =~= out@ + Seq::<char>::empty());
        }
        return;
    }
    let ghost o = out@;
    append(out, &chars_of("        "));
    append(out, &n);
    append(out, &chars_of(":\n"));
    append(out, &chars_of("          type: "));
    append(out, &chars_of(openapi_prop_type_str(p.kind)));
    out.push('\n');
    if p.nullable {
        append(out, &chars_of("          nullable: true\n"));
    }
    prop_constraints_exec(out, p);
    let ghost mid = out@;
    if p.enum_values.len() > 0 {
        append(out, &chars_of("          enum:\n"));
        let ghost m2 = out@;
        let mut i: usize = 0;
        while i < p.enum_values.len()
            invariant
                i <= p.enum_values.len(),
                out@ == m2 + enum_items(strs_view(p.enum_values@).take(i as int)),
            decreases p.enum_values.len() - i,
        {
            let v = v_trim(&chars_of(p.enum_values[i].as_str()));
            let ghost b = out@;
            if v.len() > 0 {
                append(out, &chars_of("            - "));
                append(out, &v);
                out.push('\n');
            }
            proof {
                let w = strs_view(p.enum_values@).take(i + 1);
                assert(w.drop_last() =~= strs_view(p.enum_values@).take(i as int));
                assert(w.last() == p.enum_values@[i as int]@);
                assert(out@ =~= m2 + enum_items(w));
            }
            i = i + 1;
        }
        proof {
            assert(strs_view(p.enum_values@).take(p.enum_values.len() as int) =~= strs_view(
                p.enum_values@,
            ));
        }
    }
    proof {
        assert(out@ =~= o + prop_text(*p));
    }
}

/// Writes one schema.
#[verifier::spinoff_prover]
#[verifier::rlimit(40)]
pub fn render_openapi_schema(s: &OpenApiSchema) -> (r: String)
    ensures
        r@ == schema_text(*s),
{
    let name = v_trim(&chars_of(s.name.as_str()));
    if name.len() == 0 {
        return String::new();
    }
    let mut out = chars_of("    ");
    append(&mut out, &name);
    append(&mut out, &chars_of(":\n"));
    append(&mut out, &chars_of("      type: object\n"));
    append(&mut out, &chars_of("      additionalProperties: "));
    if s.additional_properties {
        append(&mut out, &chars_of("true"));
    } else {
        append(&mut out, &chars_of("false"));
    }
    out.push('\n');
    let mut req: Vec<Vec<char>> = Vec::new();
    let mut i: usize = 0;
    while i < s.properties.len()
        invariant
            i <= s.properties.len(),
            views(req@) == required_names(s.properties@.take(i as int)),
        decreases s.properties.len() - i,
    {
        let p = &s.properties[i];
        let pn = v_trim(&chars_of(p.name.as_str()));
        proof {
            assert(s.properties@.take(i + 1).drop_last() =~= s.properties@.take(i as int));
        }
        if p.required && pn.len() > 0 {
            let ghost a = req@;
            req.push(pn);
            proof {
                assert(views(req@) =~= views(a).push(pn@));
            }
        }
        i = i + 1;
    }
    proof {
        assert(s.properties@.take(s.properties.len() as int) =~= s.properties@);
    }
    let ghost before_req = out@;
    if req.len() > 0 {
        append(&mut out, &chars_of("      required:\n"));
        let ghost m = out@;
        let mut j: usize = 0;
        while j < req.len()
            invariant
                j <= req.len(),
                out@ == m + list_items("        - "@, views(req@).take(j as int)),
            decreases req.len() - j,
        {
            append(&mut out, &chars_of("        - "));
            append(&mut out, &req[j]);
            out.push('\n');
            proof {
                let w = views(req@).take(j + 1);
                assert(w.drop_last() =~= views(req@).take(j as int));
            }
            j = j + 1;
        }
        proof {
            assert(views(req@).take(req.len() as int) =~= views(req@));
        }
    }
    append(&mut out, &chars_of("      properties:\n"));
    let ghost m3 = out@;
    let mut k: usize = 0;
    while k < s.properties.len()
        invariant
            k <= s.properties.len(),
            out@ == m3 + props_text(s.properties@.take(k as int)),
        decreases s.properties.len() - k,
    {
        prop_text_exec(&mut out, &s.properties[k]);
        proof {
            assert(s.properties@.take(k + 1).drop_last() =~= s.properties@.take(k as int));
        }
        k = k + 1;
    }
    proof {
        assert(s.properties@.take(s.properties.len() as int) =~= s.properties@);
        assert(out@ =~= schema_text(*s));
    }
    string_of(&out)
}

/// Code-point order of two texts, as `str` orders them.
pub open spec fn text_lt(a: Seq<char>, b: Seq<char>) -> bool
    decreases a.len(),
{
    if b.len() == 0 {
        false
    } else if a.len() == 0 {
        true
    } else if a[0] != b[0] {
        a[0] < b[0]
    } else {
        text_lt(a.drop_first(), b.drop_first())
    }
}

/// `p` put into the ordered list `acc`, unless it is there already.
pub open spec fn insert_sorted(acc: Seq<Seq<char>>, p: Seq<char>) -> Seq<Seq<char>>
    decreases acc.len(),
{
    if acc.len() == 0 {
        seq![p]
    } else if acc[0] == p {
        acc
    } else if text_lt(p, acc[0]) {
        seq![p] + acc
    } else {
        seq![acc[0]] + insert_sorted(acc.drop_first(), p)
    }
}

/// The distinct paths of the endpoints, in order.
pub open spec fn sorted_paths(eps: Seq<EndpointV>) -> Seq<Seq<char>>
    decreases eps.len(),
{
    if eps.len() == 0 {
        Seq::empty()
    } else {
        insert_sorted(sorted_paths(eps.drop_last()), eps.last().path)
    }
}

/// The request lines of an endpoint; none without a request body.
pub open spec fn request_text(ep: EndpointV) -> Seq<char> {
    if ep.request_body is Empty {
        Seq::empty()
    } else {
        "      requestBody:\n"@ + "        required: true\n"@ + "        content:\n"@ + "          "@
            + ep.request_content_type + ":\n"@ + "            schema:\n"@ + body_schema(
            ep.request_body,
            "              "@,
        )
    }
}

/// The response lines of an endpoint.
pub open spec fn response_text(ep: EndpointV) -> Seq<char> {
    "      responses:\n"@ + "        '"@ + dec(ep.response_status as nat) + "':\n"@ + if ep.response_body is Empty {
        "          description: No response body\n"@
    } else {
        "          description: OK\n"@ + "          content:\n"@ + "            "@
            + ep.response_content_type + ":\n"@ + "              schema:\n"@ + body_schema(
            ep.response_body,
            "                "@,
        )
    }
}

/// The lines of one endpoint under its path.
pub open spec fn endpoint_text(ep: EndpointV) -> Seq<char> {
    "    "@ + method_name(ep.method) + ":\n"@ + request_text(ep) + response_text(ep)
}

/// What the writer puts first for an endpoint, its method line, is read
/// back as that endpoint's method: the endpoint's text opens with four
/// spaces, the method's name and a colon, then a line break, and reading
/// that line sets the method to the endpoint's.
pub proof fn lemma_endpoint_method_read_back(st: ApiScan, ep: EndpointV)
    ensures
        ({
            let line = "    "@ + method_name(ep.method) + ":"@;
            &&& endpoint_text(ep).subrange(0, line.len() as int) == line
            &&& endpoint_text(ep)[line.len() as int] == '\n'
            &&& api_step(st, line).method == Some(ep.method)
        }),
{
    reveal_strlit(":\n");
    reveal_strlit(":");
    let line = "    "@ + method_name(ep.method) + ":"@;
    let t = endpoint_text(ep);
    let rest = request_text(ep) + response_text(ep);
    assert(t =~= line + seq!['\n'] + rest);
    assert(t.subrange(0, line.len() as int) =~= line);
    lemma_method_line_sets_method(st, ep.method);
}

/// The endpoints on path `q`, in their order.
pub open spec fn group_text(q: Seq<char>, eps: Seq<EndpointV>) -> Seq<char>
    decreases eps.len(),
{
    if eps.len() == 0 {
        Seq::empty()
    } else {
        group_text(q, eps.drop_last()) + if eps.last().path == q {
            endpoint_text(eps.last())
        } else {
            Seq::empty()
        }
    }
}

pub open spec fn paths_text(qs: Seq<Seq<char>>, eps: Seq<EndpointV>) -> Seq<char>
    decreases qs.len(),
{
    if qs.len() == 0 {
        Seq::empty()
    } else {
        paths_text(qs.drop_last(), eps) + "  "@ + qs.last() + ":\n"@ + group_text(qs.last(), eps)
    }
}

pub open spec fn schemas_text(ss: Seq<OpenApiSchema>) -> Seq<char>
    decreases ss.len(),
{
    if ss.len() == 0 {
        Seq::empty()
    } else {
        schemas_text(ss.drop_last()) + schema_text(ss.last())
    }
}

/// The whole contract: header, schemas, then the endpoints grouped by
/// path, paths in order.
pub open spec fn contract_text(
    title: Seq<char>,
    version: Seq<char>,
    base_url: Seq<char>,
    eps: Seq<EndpointV>,
    schemas: Seq<OpenApiSchema>,
) -> Seq<char> {
    "openapi: \"3.1.0\"\n"@ + "info:\n"@ + "  title: \""@ + yaml_esc(title) + "\"\n"@
        + "  version: \""@ + yaml_esc(version) + "\"\n"@ + "servers:\n"@ + "  - url: \""@
        + yaml_esc(base_url) + "\"\n"@ + (if schemas.len() > 0 {
        "components:\n"@ + "  schemas:\n"@ + schemas_text(schemas)
    } else {
        Seq::empty()
    }) + "paths:\n"@ + paths_text(sorted_paths(eps), eps)
}

/// Code-point order of two texts.
pub fn text_lt_exec(a: &Vec<char>, b: &Vec<char>) -> (r: bool)
    ensures
        r == text_lt(a@, b@),
{
    let mut i: usize = 0;
    proof {
        assert(a@.skip(0) =~= a@);
        assert(b@.skip(0) =~= b@);
    }
    while i < a.len() && i < b.len() && a[i] == b[i]
        invariant
            i <= a.len(),
            i <= b.len(),
            text_lt(a@, b@) == text_lt(a@.skip(i as int), b@.skip(i as int)),
        decreases a.len() - i,
    {
        proof {
            assert(a@.skip(i as int).drop_first() =~= a@.skip(i + 1));
            assert(b@.skip(i as int).drop_first() =~= b@.skip(i + 1));
        }
        i = i + 1;
    }
    if i >= b.len() {
        false
    } else if i >= a.len() {
        true
    } else {
        a[i] < b[i]
    }
}

fn insert_sorted_exec(acc: &mut Vec<Vec<char>>, p: &Vec<char>)
    ensures
        views(final(acc)@) == insert_sorted(views(old(acc)@), p@),
{
    let ghost a = views(acc@);
    let mut i: usize = 0;
    proof {
        assert(a.skip(0) =~= a);
        assert(a.take(0) + insert_sorted(a.skip(0), p@) =~= insert_sorted(a, p@));
    }
    while i < acc.len()
        invariant
            i <= acc.len(),
            a == views(acc@),
            a == views(old(acc)@),
            insert_sorted(a, p@) == a.take(i as int) + insert_sorted(a.skip(i as int), p@),
        decreases acc.len() - i,
    {
        proof {
            assert(a.skip(i as int).drop_first() =~= a.skip(i + 1));
            assert(a.skip(i as int)[0] == acc@[i as int]@);
        }
        if eq(&acc[i], p) {
            proof {
                assert(a.take(i as int) + a.skip(i as int) =~= a);
            }
            return;
        }
        if text_lt_exec(p, &acc[i]) {
            acc.insert(i, crate::text::copy_chars(p));
            proof {
                assert(views(acc@) =~= a.take(i as int) + (seq![p@] + a.skip(i as int)));
            }
            return;
        }
        proof {
            assert(a.take(i as int) + (seq![a.skip(i as int)[0]] + insert_sorted(
                a.skip(i + 1),
                p@,
            )) =~= a.take(i + 1) + insert_sorted(a.skip(i + 1), p@));
        }
        i = i + 1;
    }
    acc.push(crate::text::copy_chars(p));
    proof {
        assert(a.take(i as int) =~= a);
        assert(views(acc@) =~= a + seq![p@]);
    }
}

fn request_text_exec(out: &mut Vec<char>, ep: &OpenApiEndpoint)
    ensures
        final(out)@ == old(out)@ + request_text(ep@),
{
    let ghost o = out@;
    match &ep.request_body {
        OpenApiBody::Empty => {},
        _ => {
            append(out, &chars_of("      requestBody:\n"));
            append(out, &chars_of("        required: true\n"));
            append(out, &chars_of("        content:\n"));
            append(out, &chars_of("          "));
            append(out, &chars_of(ep.request_content_type.as_str()));
            append(out, &chars_of(":\n"));
            append(out, &chars_of("            schema:\n"));
            append(
                out,
                &chars_of(render_openapi_body_schema(&ep.request_body, "              ").as_str()),
            );
        },
    }
    proof {
        assert(out@ =~= o + request_text(ep@));
    }
}

fn response_text_exec(out: &mut Vec<char>, ep: &OpenApiEndpoint)
    ensures
        final(out)@ == old(out)@ + response_text(ep@),
{
    let ghost o = out@;
    append(out, &chars_of("      responses:\n"));
    append(out, &chars_of("        '"));
    append(out, &fmt_u128(ep.response_status as u128));
    append(out, &chars_of("':\n"));
    let ghost m = out@;
    match &ep.response_body {
        OpenApiBody::Empty => {
            append(out, &chars_of("          description: No response body\n"));
        },
        _ => {
            append(out, &chars_of("          description: OK\n"));
            append(out, &chars_of("          content:\n"));
            append(out, &chars_of("            "));
            append(out, &chars_of(ep.response_content_type.as_str()));
            append(out, &chars_of(":\n"));
            append(out, &chars_of("              schema:\n"));
            append(
                out,
                &chars_of(
                    render_openapi_body_schema(&ep.response_body, "                ").as_str(),
                ),
            );
        },
    }
    proof {
        assert(out@ =~= o + response_text(ep@));
    }
}

fn endpoint_text_exec(out: &mut Vec<char>, ep: &OpenApiEndpoint)
    ensures
        final(out)@ == old(out)@ + endpoint_text(ep@),
{
    let ghost o = out@;
    append(out, &chars_of("    "));
    append(out, &chars_of(openapi_method_str(ep.method)));
    append(out, &chars_of(":\n"));
    request_text_exec(out, ep);
    response_text_exec(out, ep);
    proof {
        assert(out@ =~= o + endpoint_text(ep@));
    }
}

/// Writes a whole contract.
pub fn render_openapi_contract(
    title: &str,
    version: &str,
    base_url: &str,
    endpoints: &Vec<OpenApiEndpoint>,
    schemas: &Vec<OpenApiSchema>,
) -> (r: String)
    ensures
        r@ == contract_text(title@, version@, base_url@, endpoints_view(endpoints@), schemas@),
{
    let mut out = chars_of("openapi: \"3.1.0\"\n");
    append(&mut out, &chars_of("info:\n"));
    append(&mut out, &chars_of("  title: \""));
    append(&mut out, &yaml_escape_chars(&chars_of(title)));
    append(&mut out, &chars_of("\"\n"));
    append(&mut out, &chars_of("  version: \""));
    append(&mut out, &yaml_escape_chars(&chars_of(version)));
    append(&mut out, &chars_of("\"\n"));
    append(&mut out, &chars_of("servers:\n"));
    append(&mut out, &chars_of("  - url: \""));
    append(&mut out, &yaml_escape_chars(&chars_of(base_url)));
    append(&mut out, &chars_of("\"\n"));
    let ghost head = out@;
    if schemas.len() > 0 {
        append(&mut out, &chars_of("components:\n"));
        append(&mut out, &chars_of("  schemas:\n"));
        let ghost m = out@;
        let mut i: usize = 0;
        while i < schemas.len()
            invariant
                i <= schemas.len(),
                out@ == m + schemas_text(schemas@.take(i as int)),
            decreases schemas.len() - i,
        {
            append(&mut out, &chars_of(render_openapi_schema(&schemas[i]).as_str()));
            proof {
                assert(schemas@.take(i + 1).drop_last() =~= schemas@.take(i as int));
            }
            i = i + 1;
        }
        proof {
            assert(schemas@.take(schemas.len() as int) =~= schemas@);
        }
    }
    append(&mut out, &chars_of("paths:\n"));
    let ghost eps = endpoints_view(endpoints@);
    let mut paths: Vec<Vec<char>> = Vec::new();
    let mut i: usize = 0;
    proof {
        assert(eps.take(0) =~= Seq::<EndpointV>::empty());
        assert(views(paths@) =~= Seq::<Seq<char>>::empty());
    }
    while i < endpoints.len()
        invariant
            i <= endpoints.len(),
            eps == endpoints_view(endpoints@),
            views(paths@) == sorted_paths(eps.take(i as int)),
        decreases endpoints.len() - i,
    {
        proof {
            assert(eps.take(i + 1).drop_last() =~= eps.take(i as int));
        }
        insert_sorted_exec(&mut paths, &chars_of(endpoints[i].path.as_str()));
        i = i + 1;
    }
    proof {
        assert(eps.take(endpoints.len() as int) =~= eps);
    }
    let ghost m2 = out@;
    let mut k: usize = 0;
    while k < paths.len()
        invariant
            k <= paths.len(),
            eps == endpoints_view(endpoints@),
            out@ == m2 + paths_text(views(paths@).take(k as int), eps),
        decreases paths.len() - k,
    {
        let q = &paths[k];
        let ghost b = out@;
        append(&mut out, &chars_of("  "));
        append(&mut out, q);
        append(&mut out, &chars_of(":\n"));
        let ghost g = out@;
        let mut j: usize = 0;
        while j < endpoints.len()
            invariant
                j <= endpoints.len(),
                eps == endpoints_view(endpoints@),
                out@ == g + group_text(q@, eps.take(j as int)),
            decreases endpoints.len() - j,
        {
            proof {
                assert(eps.take(j + 1).drop_last() =~= eps.take(j as int));
            }
            if eq(&chars_of(endpoints[j].path.as_str()), q) {
                endpoint_text_exec(&mut out, &endpoints[j]);
            }
            j = j + 1;
        }
        proof {
            assert(eps.take(endpoints.len() as int) =~= eps);
            let w = views(paths@).take(k + 1);
            assert(w.drop_last() =~= views(paths@).take(k as int));
            assert(w.last() == q@);
            assert(out@ =~= m2 + paths_text(w, eps));
        }
        k = k + 1;
    }
    proof {
        assert(views(paths@).take(paths.len() as int) =~= views(paths@));
        assert(out@ =~= contract_text(title@, version@, base_url@, eps, schemas@));
    }
    string_of(&out)
}

/// The contract an editor state describes.
pub fn render_openapi_preview(ed: &OpenApiEditorState) -> (r: String)
    ensures
        r@ == contract_text(
            ed.title@,
            ed.version@,
            ed.base_url@,
            endpoints_view(ed.endpoints@),
            ed.schemas@,
        ),
{
    render_openapi_contract(
        ed.title.as_str(),
        ed.version.as_str(),
        ed.base_url.as_str(),
        &ed.endpoints,
        &ed.schemas,
    )
}

// ---------------------------------------------------------------------
// The editor's footer.

/// The summary line of a property.
pub open spec fn prop_summary(p: OpenApiSchemaProp) -> Seq<char> {
    "prop: "@ + p.name@ + (if p.required {
        " *"@
    } else {
        Seq::empty()
    }) + " type="@ + prop_type_name(p.kind) + " nullable="@ + (if p.nullable {
        "true"@
    } else {
        "false"@
    }) + " fmt="@ + match string_format_name(p.format) {
        Some(f) => f,
        None => "-"@,
    }
}

/// The footer for browsing endpoints.
pub open spec fn browse_footer(ed: OpenApiEditorState) -> Seq<char> {
    if ed.endpoint_cursor < ed.endpoints@.len() {
        let ep = ed.endpoints@[ed.endpoint_cursor as int]@;
        "Selected: "@ + method_upper(ep.method) + " "@ + ep.path + "\nreq: "@
            + ep.request_content_type + " "@ + body_label(ep.request_body) + "\nresp: "@ + dec(
            ep.response_status as nat,
        ) + " "@ + ep.response_content_type + " "@ + body_label(ep.response_body)
            + "\n(edit: u path, m method, s status, c content-type, r req body, p resp body)"@
    } else {
        "No endpoints. Press `n` to add one."@
    }
}

/// The footer for browsing schemas.
pub open spec fn schemas_footer(ed: OpenApiEditorState) -> Seq<char> {
    if ed.schema_cursor < ed.schemas@.len() {
        let s = ed.schemas@[ed.schema_cursor as int];
        "Schema: "@ + s.name@ + " (props: "@ + dec(s.properties@.len()) + ")\n"@ + (if ed.prop_cursor
            < s.properties@.len() {
            prop_summary(s.properties@[ed.prop_cursor as int])
        } else {
            "no properties"@
        })
            + "\n(keys: Tab schema · Up/Down prop · p add prop · x del prop · Space required · t type · f format · a nullable · / pattern · e enum · i/k min/max)"@
    } else {
        "Schemas: none. Press `n` to add one. (g toggles back to endpoints)"@
    }
}

/// The help text under the OpenAPI editor, by what it is doing.
pub open spec fn footer_text(ed: OpenApiEditorState) -> Seq<char> {
    match ed.mode {
        OpenApiEditorMode::Browse => browse_footer(ed),
        OpenApiEditorMode::Schemas => schemas_footer(ed),
        OpenApiEditorMode::AddEndpoint => "Press Enter to create a new endpoint."@,
        OpenApiEditorMode::AddSchema { input } => "New schema name:\n"@ + input@
            + "\n(Enter to create)"@,
        OpenApiEditorMode::RenameSchema { input } => "Rename schema:\n"@ + input@
            + "\n(Enter to confirm)"@,
        OpenApiEditorMode::AddProp { input } => "New property name:\n"@ + input@
            + "\n(Enter to add)"@,
        OpenApiEditorMode::RenameProp { input } => "Rename property:\n"@ + input@
            + "\n(Enter to confirm)"@,
        OpenApiEditorMode::EditPropPattern { input } => "Pattern (regex):\n"@ + input@
            + "\n(Enter to set)"@,
        OpenApiEditorMode::EditPropEnum { input } => "Enum values (comma-separated):\n"@
            + input@ + "\n(Enter to set)"@,
        OpenApiEditorMode::EditPropMin { input } => "Min (minLength/minimum):\n"@ + input@
            + "\n(Enter to set, blank clears)"@,
        OpenApiEditorMode::EditPropMax { input } => "Max (maxLength/maximum):\n"@ + input@
            + "\n(Enter to set, blank clears)"@,
        OpenApiEditorMode::EditPath { input } => "Edit path:\n"@ + input@
            + "\n(Enter to confirm)"@,
        OpenApiEditorMode::EditTitle { input } => "Edit API title:\n"@ + input@
            + "\n(Enter to confirm)"@,
        OpenApiEditorMode::EditVersion { input } => "Edit version (e.g. 1.0.0):\n"@ + input@
            + "\n(Enter to confirm)"@,
        OpenApiEditorMode::EditBaseUrl { input } => "Edit base URL:\n"@ + input@
            + "\n(Enter to confirm)"@,
    }
}

fn prompt(head: &str, input: &String, tail: &str) -> (r: String)
    ensures
        r@ == head@ + input@ + tail@,
{
    let mut v = chars_of(head);
    append(&mut v, &chars_of(input.as_str()));
    append(&mut v, &chars_of(tail));
    string_of(&v)
}

fn browse_footer_exec(ed: &OpenApiEditorState) -> (r: String)
    ensures
        r@ == browse_footer(*ed),
{
    if ed.endpoint_cursor >= ed.endpoints.len() {
        return "No endpoints. Press `n` to add one.".to_string();
    }
    let ep = &ed.endpoints[ed.endpoint_cursor];
    let mut v = chars_of("Selected: ");
    append(&mut v, &chars_of(method_upper_str(ep.method)));
    append(&mut v, &chars_of(" "));
    append(&mut v, &chars_of(ep.path.as_str()));
    append(&mut v, &chars_of("\nreq: "));
    append(&mut v, &chars_of(ep.request_content_type.as_str()));
    append(&mut v, &chars_of(" "));
    append(&mut v, &chars_of(render_openapi_body_label(&ep.request_body).as_str()));
    append(&mut v, &chars_of("\nresp: "));
    append(&mut v, &fmt_u128(ep.response_status as u128));
    append(&mut v, &chars_of(" "));
    append(&mut v, &chars_of(ep.response_content_type.as_str()));
    append(&mut v, &chars_of(" "));
    append(&mut v, &chars_of(render_openapi_body_label(&ep.response_body).as_str()));
    append(
        &mut v,
        &chars_of("\n(edit: u path, m method, s status, c content-type, r req body, p resp body)"),
    );
    proof {
        assert(v@ =~= browse_footer(*ed));
    }
    string_of(&v)
}

fn prop_summary_exec(p: &OpenApiSchemaProp) -> (r: Vec<char>)
    ensures
        r@ == prop_summary(*p),
{
    let mut v = chars_of("prop: ");
    append(&mut v, &chars_of(p.name.as_str()));
    if p.required {
        append(&mut v, &chars_of(" *"));
    }
    append(&mut v, &chars_of(" type="));
    append(&mut v, &chars_of(openapi_prop_type_str(p.kind)));
    append(&mut v, &chars_of(" nullable="));
    if p.nullable {
        append(&mut v, &chars_of("true"));
    } else {
        append(&mut v, &chars_of("false"));
    }
    append(&mut v, &chars_of(" fmt="));
    match openapi_string_format_str(p.format) {
        Some(f) => append(&mut v, &chars_of(f)),
        None => append(&mut v, &chars_of("-")),
    }
    proof {
        assert(v@ =~= prop_summary(*p));
    }
    v
}

fn schemas_footer_exec(ed: &OpenApiEditorState) -> (r: String)
    ensures
        r@ == schemas_footer(*ed),
{
    if ed.schema_cursor >= ed.schemas.len() {
        return "Schemas: none. Press `n` to add one. (g toggles back to endpoints)".to_string();
    }
    let s = &ed.schemas[ed.schema_cursor];
    let mut v = chars_of("Schema: ");
    append(&mut v, &chars_of(s.name.as_str()));
    append(&mut v, &chars_of(" (props: "));
    append(&mut v, &fmt_u128(s.properties.len() as u128));
    append(&mut v, &chars_of(")\n"));
    if ed.prop_cursor < s.properties.len() {
        append(&mut v, &prop_summary_exec(&s.properties[ed.prop_cursor]));
    } else {
        append(&mut v, &chars_of("no properties"));
    }
    append(
        &mut v,
        &chars_of(
            "\n(keys: Tab schema · Up/Down prop · p add prop · x del prop · Space required · t type · f format · a nullable · / pattern · e enum · i/k min/max)",
        ),
    );
    proof {
        assert(v@ =~= schemas_footer(*ed));
    }
    string_of(&v)
}

/// The help text under the OpenAPI editor.
pub fn render_openapi_footer(ed: &OpenApiEditorState) -> (r: String)
    ensures
        r@ == footer_text(*ed),
{
    match &ed.mode {
        OpenApiEditorMode::Browse => browse_footer_exec(ed),
        OpenApiEditorMode::Schemas => schemas_footer_exec(ed),
        OpenApiEditorMode::AddEndpoint => "Press Enter to create a new endpoint.".to_string(),
        OpenApiEditorMode::AddSchema { input } => prompt(
            "New schema name:\n",
            input,
            "\n(Enter to create)",
        ),
        OpenApiEditorMode::RenameSchema { input } => prompt(
            "Rename schema:\n",
            input,
            "\n(Enter to confirm)",
        ),
        OpenApiEditorMode::AddProp { input } => prompt(
            "New property name:\n",
            input,
            "\n(Enter to add)",
        ),
        OpenApiEditorMode::RenameProp { input } => prompt(
            "Rename property:\n",
            input,
            "\n(Enter to confirm)",
        ),
        OpenApiEditorMode::EditPropPattern { input } => prompt(
            "Pattern (regex):\n",
            input,
            "\n(Enter to set)",
        ),
        OpenApiEditorMode::EditPropEnum { input } => prompt(
            "Enum values (comma-separated):\n",
            input,
            "\n(Enter to set)",
        ),
        OpenApiEditorMode::EditPropMin { input } => prompt(
            "Min (minLength/minimum):\n",
            input,
            "\n(Enter to set, blank clears)",
        ),
        OpenApiEditorMode::EditPropMax { input } => prompt(
            "Max (maxLength/maximum):\n",
            input,
            "\n(Enter to set, blank clears)",
        ),
        OpenApiEditorMode::EditPath { input } => prompt(
            "Edit path:\n",
            input,
            "\n(Enter to confirm)",
        ),
        OpenApiEditorMode::EditTitle { input } => prompt(
            "Edit API title:\n",
            input,
            "\n(Enter to confirm)",
        ),
        OpenApiEditorMode::EditVersion { input } => prompt(
            "Edit version (e.g. 1.0.0):\n",
            input,
            "\n(Enter to confirm)",
        ),
        OpenApiEditorMode::EditBaseUrl { input } => prompt(
            "Edit base URL:\n",
            input,
            "\n(Enter to confirm)",
        ),
    }
}

} // verus!
