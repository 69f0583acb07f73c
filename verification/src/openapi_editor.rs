//! Editing an OpenAPI contract: the editor's moves, prompts and
//! confirmations over endpoints, schemas and their properties.

use vstd::prelude::*;
use crate::cursor::{apply_delta, clamp_delta, move_cursor};
use crate::num::{all_digits, dec_value, parse_unsigned, parse_unsigned_exec};
use crate::openapi::{
    BodyV, EndpointV, OpenApiBody, OpenApiEditorMode, OpenApiEditorState, OpenApiEndpoint,
    OpenApiPropType, OpenApiSchema, OpenApiSchemaProp, OpenApiStringFormat, all_content_types,
    all_methods, all_prop_types, all_statuses, all_string_formats, cycle_body_with_schemas,
    cycle_content_type, cycle_method, cycle_prop_type, cycle_status, cycle_string_format,
    cycled_body, default_endpoint, endpoints_view, index_or_zero, method_index, prop_type_index,
    schema_names, string_format_index,
};
use crate::cursor::wrap_index;
use crate::text::{
    chars_of, copy_string, eq, pop_char, push_char, string_of, trim, v_trim, views,
};

verus! {

/// A property as plain values.
pub struct PropV {
    pub name: Seq<char>,
    pub kind: OpenApiPropType,
    pub required: bool,
    pub nullable: bool,
    pub format: OpenApiStringFormat,
    pub min: Option<i64>,
    pub max: Option<i64>,
    pub pattern: Seq<char>,
    pub enum_values: Seq<Seq<char>>,
}

pub open spec fn strings_of(s: Seq<String>) -> Seq<Seq<char>> {
    s.map_values(|x: String| x@)
}

impl View for OpenApiSchemaProp {
    type V = PropV;

    open spec fn view(&self) -> PropV {
        PropV {
            name: self.name@,
            kind: self.kind,
            required: self.required,
            nullable: self.nullable,
            format: self.format,
            min: self.min,
            max: self.max,
            pattern: self.pattern@,
            enum_values: strings_of(self.enum_values@),
        }
    }
}

pub open spec fn props_view(s: Seq<OpenApiSchemaProp>) -> Seq<PropV> {
    s.map_values(|p: OpenApiSchemaProp| p@)
}

/// A schema as plain values.
pub struct SchemaV {
    pub name: Seq<char>,
    pub additional_properties: bool,
    pub properties: Seq<PropV>,
}

impl View for OpenApiSchema {
    type V = SchemaV;

    open spec fn view(&self) -> SchemaV {
        SchemaV {
            name: self.name@,
            additional_properties: self.additional_properties,
            properties: props_view(self.properties@),
        }
    }
}

pub open spec fn schemas_view(s: Seq<OpenApiSchema>) -> Seq<SchemaV> {
    s.map_values(|x: OpenApiSchema| x@)
}

/// What the editor holds, apart from its mode, the field it edits and
/// the preview's scroll.
#[verifier::ext_equal]
pub struct ContractV {
    pub title: Seq<char>,
    pub version: Seq<char>,
    pub base_url: Seq<char>,
    pub endpoints: Seq<EndpointV>,
    pub endpoint_cursor: int,
    pub schemas: Seq<SchemaV>,
    pub schema_cursor: int,
    pub prop_cursor: int,
}

/// The contents of the editor.
pub open spec fn contents(ed: OpenApiEditorState) -> ContractV {
    ContractV {
        title: ed.title@,
        version: ed.version@,
        base_url: ed.base_url@,
        endpoints: endpoints_view(ed.endpoints@),
        endpoint_cursor: ed.endpoint_cursor as int,
        schemas: schemas_view(ed.schemas@),
        schema_cursor: ed.schema_cursor as int,
        prop_cursor: ed.prop_cursor as int,
    }
}

/// `b` differs from `a` only in what `contents` holds.
pub open spec fn same_frame(a: OpenApiEditorState, b: OpenApiEditorState) -> bool {
    &&& b.form_field_index == a.form_field_index
    &&& b.mode == a.mode
    &&& b.preview_scroll == a.preview_scroll
}

/// `b` differs from `a` at most in its mode.
pub open spec fn oa_only_mode(a: OpenApiEditorState, b: OpenApiEditorState) -> bool {
    &&& b.form_field_index == a.form_field_index
    &&& b.title == a.title
    &&& b.version == a.version
    &&& b.base_url == a.base_url
    &&& b.endpoints == a.endpoints
    &&& b.endpoint_cursor == a.endpoint_cursor
    &&& b.schemas == a.schemas
    &&& b.schema_cursor == a.schema_cursor
    &&& b.prop_cursor == a.prop_cursor
    &&& b.preview_scroll == a.preview_scroll
}

/// There is a current property.
pub open spec fn has_prop(c: ContractV) -> bool {
    0 <= c.schema_cursor < c.schemas.len() && 0 <= c.prop_cursor
        < c.schemas[c.schema_cursor].properties.len()
}

/// The contents with the current property replaced by `f` of it.
pub open spec fn with_prop(c: ContractV, f: spec_fn(PropV) -> PropV) -> ContractV {
    if has_prop(c) {
        let s = c.schemas[c.schema_cursor];
        ContractV {
            schemas: c.schemas.update(
                c.schema_cursor,
                SchemaV {
                    properties: s.properties.update(c.prop_cursor, f(s.properties[c.prop_cursor])),
                    ..s
                },
            ),
            ..c
        }
    } else {
        c
    }
}

/// The contents with the current endpoint replaced by `f` of it.
pub open spec fn with_endpoint(c: ContractV, f: spec_fn(EndpointV) -> EndpointV) -> ContractV {
    if 0 <= c.endpoint_cursor < c.endpoints.len() {
        ContractV {
            endpoints: c.endpoints.update(c.endpoint_cursor, f(c.endpoints[c.endpoint_cursor])),
            ..c
        }
    } else {
        c
    }
}

/// What `str::parse::<i64>` gives: a non-empty run of digits after an
/// optional sign, within range.
pub open spec fn parse_i64(s: Seq<char>) -> Option<i64> {
    if s.len() > 0 && s[0] == '-' {
        let d = s.drop_first();
        if d.len() > 0 && all_digits(d) && dec_value(d) <= 9223372036854775808 {
            Some((0 - dec_value(d)) as i64)
        } else {
            None
        }
    } else {
        match parse_unsigned(s, 9223372036854775807) {
            Some(v) => Some(v as i64),
            None => None,
        }
    }
}

/// `str::parse::<i64>`, then `ok()`.
pub fn parse_i64_exec(s: &Vec<char>) -> (r: Option<i64>)
    ensures
        r == parse_i64(s@),
{
    if s.len() > 0 && s[0] == '-' {
        let mut d: Vec<char> = Vec::new();
        let mut i: usize = 1;
        while i < s.len()
            invariant
                1 <= i <= s.len(),
                d@ == s@.subrange(1, i as int),
            decreases s.len() - i,
        {
            d.push(s[i]);
            i = i + 1;
        }
        proof {
            assert(d@ =~= s@.drop_first());
        }
        if d.len() > 0 && d[0] == '+' {
            proof {
                assert(!all_digits(d@)) by {
                    assert(!crate::num::is_digit(d@[0]));
                }
            }
            return None;
        }
        match parse_unsigned_exec(&d, 9223372036854775808) {
            Some(v) => {
                proof {
                    assert(crate::num::unsigned_digits(d@) == d@);
                }
                if v == 9223372036854775808 {
                    Some(i64::MIN)
                } else {
                    Some(-(v as i64))
                }
            },
            None => {
                proof {
                    assert(crate::num::unsigned_digits(d@) == d@);
                }
                None
            },
        }
    } else {
        match parse_unsigned_exec(s, 9223372036854775807) {
            Some(v) => Some(v as i64),
            None => None,
        }
    }
}

/// The pieces of `s` between occurrences of `c` so far, and the piece
/// being read.
pub open spec fn split_scan(s: Seq<char>, c: char) -> (Seq<Seq<char>>, Seq<char>)
    decreases s.len(),
{
    if s.len() == 0 {
        (Seq::empty(), Seq::empty())
    } else {
        let (done, cur) = split_scan(s.drop_last(), c);
        if s.last() == c {
            (done.push(cur), Seq::empty())
        } else {
            (done, cur.push(s.last()))
        }
    }
}

/// `str::split` by one character.
pub open spec fn split_all(s: Seq<char>, c: char) -> Seq<Seq<char>> {
    split_scan(s, c).0.push(split_scan(s, c).1)
}

/// The non-blank pieces, trimmed.
pub open spec fn nonblank_trimmed(ps: Seq<Seq<char>>) -> Seq<Seq<char>>
    decreases ps.len(),
{
    if ps.len() == 0 {
        Seq::empty()
    } else {
        let r = nonblank_trimmed(ps.drop_last());
        if trim(ps.last()).len() > 0 {
            r.push(trim(ps.last()))
        } else {
            r
        }
    }
}

/// The enum values typed as a comma-separated list.
pub open spec fn enum_values_of(input: Seq<char>) -> Seq<Seq<char>> {
    nonblank_trimmed(split_all(input, ','))
}

/// The enum values typed as a comma-separated list.
pub fn enum_values_exec(input: &String) -> (r: Vec<String>)
    ensures
        strings_of(r@) == enum_values_of(input@),
{
    let s = chars_of(input.as_str());
    let mut out: Vec<String> = Vec::new();
    let mut cur: Vec<char> = Vec::new();
    let mut i: usize = 0;
    while i < s.len()
        invariant
            i <= s.len(),
            s@ == input@,
            strings_of(out@) == nonblank_trimmed(split_scan(s@.take(i as int), ',').0),
            cur@ == split_scan(s@.take(i as int), ',').1,
        decreases s.len() - i,
    {
        proof {
            assert(s@.take(i + 1).drop_last() =~= s@.take(i as int));
            assert(s@.take(i + 1).last() == s@[i as int]);
        }
        if s[i] == ',' {
            let t = v_trim(&cur);
            if t.len() > 0 {
                let ghost before = strings_of(out@);
                out.push(string_of(&t));
                proof {
                    assert(strings_of(out@) =~= before.push(t@));
                }
            }
            let ghost done = split_scan(s@.take(i as int), ',').0;
            proof {
                assert(done.push(cur@).drop_last() =~= done);
                assert(done.push(cur@).last() == cur@);
            }
            cur = Vec::new();
        } else {
            cur.push(s[i]);
        }
        i = i + 1;
    }
    proof {
        assert(s@.take(s.len() as int) =~= s@);
    }
    let ghost done = split_scan(s@, ',').0;
    let t = v_trim(&cur);
    proof {
        assert(done.push(cur@).drop_last() =~= done);
        assert(done.push(cur@).last() == cur@);
    }
    if t.len() > 0 {
        let ghost before = strings_of(out@);
        out.push(string_of(&t));
        proof {
            assert(strings_of(out@) =~= before.push(t@));
        }
    }
    out
}

/// A property as a new one is: a string, neither required nor nullable,
/// without constraints.
pub open spec fn new_prop(name: Seq<char>) -> PropV {
    PropV {
        name,
        kind: OpenApiPropType::String,
        required: false,
        nullable: false,
        format: OpenApiStringFormat::Plain,
        min: None,
        max: None,
        pattern: Seq::empty(),
        enum_values: Seq::empty(),
    }
}

/// The text a prompt mode holds.
pub open spec fn prompt_input(m: OpenApiEditorMode) -> Option<Seq<char>> {
    match m {
        OpenApiEditorMode::AddSchema { input } => Some(input@),
        OpenApiEditorMode::RenameSchema { input } => Some(input@),
        OpenApiEditorMode::AddProp { input } => Some(input@),
        OpenApiEditorMode::RenameProp { input } => Some(input@),
        OpenApiEditorMode::EditPropPattern { input } => Some(input@),
        OpenApiEditorMode::EditPropEnum { input } => Some(input@),
        OpenApiEditorMode::EditPropMin { input } => Some(input@),
        OpenApiEditorMode::EditPropMax { input } => Some(input@),
        OpenApiEditorMode::EditPath { input } => Some(input@),
        OpenApiEditorMode::EditTitle { input } => Some(input@),
        OpenApiEditorMode::EditVersion { input } => Some(input@),
        OpenApiEditorMode::EditBaseUrl { input } => Some(input@),
        _ => None,
    }
}

/// `b` is the prompt mode `a` with its text replaced by `t`.
pub open spec fn same_prompt(a: OpenApiEditorMode, b: OpenApiEditorMode, t: Seq<char>) -> bool {
    match (a, b) {
        (OpenApiEditorMode::AddSchema { .. }, OpenApiEditorMode::AddSchema { input }) => input@
            == t,
        (OpenApiEditorMode::RenameSchema { .. }, OpenApiEditorMode::RenameSchema { input }) => input@
            == t,
        (OpenApiEditorMode::AddProp { .. }, OpenApiEditorMode::AddProp { input }) => input@ == t,
        (OpenApiEditorMode::RenameProp { .. }, OpenApiEditorMode::RenameProp { input }) => input@
            == t,
        (OpenApiEditorMode::EditPropPattern { .. }, OpenApiEditorMode::EditPropPattern { input }) => input@
            == t,
        (OpenApiEditorMode::EditPropEnum { .. }, OpenApiEditorMode::EditPropEnum { input }) => input@
            == t,
        (OpenApiEditorMode::EditPropMin { .. }, OpenApiEditorMode::EditPropMin { input }) => input@
            == t,
        (OpenApiEditorMode::EditPropMax { .. }, OpenApiEditorMode::EditPropMax { input }) => input@
            == t,
        (OpenApiEditorMode::EditPath { .. }, OpenApiEditorMode::EditPath { input }) => input@ == t,
        (OpenApiEditorMode::EditTitle { .. }, OpenApiEditorMode::EditTitle { input }) => input@
            == t,
        (OpenApiEditorMode::EditVersion { .. }, OpenApiEditorMode::EditVersion { input }) => input@
            == t,
        (OpenApiEditorMode::EditBaseUrl { .. }, OpenApiEditorMode::EditBaseUrl { input }) => input@
            == t,
        _ => false,
    }
}

/// The mode after confirming in mode `m`: back to the schemas pane from
/// the schema and property prompts, to browsing otherwise.
pub open spec fn mode_after_confirm(m: OpenApiEditorMode) -> OpenApiEditorMode {
    match m {
        OpenApiEditorMode::Schemas => OpenApiEditorMode::Schemas,
        OpenApiEditorMode::AddSchema { .. } => OpenApiEditorMode::Schemas,
        OpenApiEditorMode::RenameSchema { .. } => OpenApiEditorMode::Schemas,
        OpenApiEditorMode::AddProp { .. } => OpenApiEditorMode::Schemas,
        OpenApiEditorMode::RenameProp { .. } => OpenApiEditorMode::Schemas,
        OpenApiEditorMode::EditPropPattern { .. } => OpenApiEditorMode::Schemas,
        OpenApiEditorMode::EditPropEnum { .. } => OpenApiEditorMode::Schemas,
        OpenApiEditorMode::EditPropMin { .. } => OpenApiEditorMode::Schemas,
        OpenApiEditorMode::EditPropMax { .. } => OpenApiEditorMode::Schemas,
        _ => OpenApiEditorMode::Browse,
    }
}

/// The contents after confirming the prompt `m` over `c`.
pub open spec fn oa_confirmed(m: OpenApiEditorMode, c: ContractV) -> ContractV {
    match m {
        OpenApiEditorMode::AddEndpoint => ContractV {
            endpoints: c.endpoints.push(default_endpoint()),
            endpoint_cursor: c.endpoints.len() as int,
            ..c
        },
        OpenApiEditorMode::AddSchema { input } => if trim(input@).len() > 0 {
            ContractV {
                schemas: c.schemas.push(
                    SchemaV {
                        name: trim(input@),
                        additional_properties: false,
                        properties: Seq::empty(),
                    },
                ),
                schema_cursor: c.schemas.len() as int,
                prop_cursor: 0,
                ..c
            }
        } else {
            c
        },
        OpenApiEditorMode::RenameSchema { input } => if trim(input@).len() > 0 && 0
            <= c.schema_cursor < c.schemas.len() {
            ContractV {
                schemas: c.schemas.update(
                    c.schema_cursor,
                    SchemaV { name: trim(input@), ..c.schemas[c.schema_cursor] },
                ),
                ..c
            }
        } else {
            c
        },
        OpenApiEditorMode::AddProp { input } => if trim(input@).len() > 0 && 0 <= c.schema_cursor
            < c.schemas.len() {
            let s = c.schemas[c.schema_cursor];
            ContractV {
                schemas: c.schemas.update(
                    c.schema_cursor,
                    SchemaV { properties: s.properties.push(new_prop(trim(input@))), ..s },
                ),
                prop_cursor: s.properties.len() as int,
                ..c
            }
        } else {
            c
        },
        OpenApiEditorMode::RenameProp { input } => if trim(input@).len() > 0 {
            with_prop(c, |p: PropV| PropV { name: trim(input@), ..p })
        } else {
            c
        },
        OpenApiEditorMode::EditPropPattern { input } => with_prop(
            c,
            |p: PropV| PropV { pattern: trim(input@), ..p },
        ),
        OpenApiEditorMode::EditPropEnum { input } => with_prop(
            c,
            |p: PropV| PropV { enum_values: enum_values_of(input@), ..p },
        ),
        OpenApiEditorMode::EditPropMin { input } => with_prop(
            c,
            |p: PropV| PropV { min: parse_i64(trim(input@)), ..p },
        ),
        OpenApiEditorMode::EditPropMax { input } => with_prop(
            c,
            |p: PropV| PropV { max: parse_i64(trim(input@)), ..p },
        ),
        OpenApiEditorMode::EditPath { input } => if trim(input@).len() > 0 {
            with_endpoint(c, |e: EndpointV| EndpointV { path: trim(input@), ..e })
        } else {
            c
        },
        OpenApiEditorMode::EditTitle { input } => if trim(input@).len() > 0 {
            ContractV { title: trim(input@), ..c }
        } else {
            c
        },
        OpenApiEditorMode::EditVersion { input } => if trim(input@).len() > 0 {
            ContractV { version: trim(input@), ..c }
        } else {
            c
        },
        OpenApiEditorMode::EditBaseUrl { input } => if trim(input@).len() > 0 {
            ContractV { base_url: trim(input@), ..c }
        } else {
            c
        },
        _ => c,
    }
}

/// The body with references to `name` cleared.
pub open spec fn unref_body(b: BodyV, name: Seq<char>) -> BodyV {
    if b == BodyV::SchemaRef(name) {
        BodyV::Empty
    } else {
        b
    }
}

/// The endpoint with its references to `name` cleared.
pub open spec fn unref_endpoint(e: EndpointV, name: Seq<char>) -> EndpointV {
    EndpointV {
        request_body: unref_body(e.request_body, name),
        response_body: unref_body(e.response_body, name),
        ..e
    }
}

/// The index a deletion removes: the cursor, or the last item when the
/// cursor is past the end.
pub open spec fn delete_idx(cur: int, n: int) -> int {
    if cur < n {
        cur
    } else {
        n - 1
    }
}

/// The cursor after a deletion leaves `n` items.
pub open spec fn clamp_cursor(cur: int, n: int) -> int {
    if n == 0 {
        0
    } else if cur < n {
        cur
    } else {
        n - 1
    }
}

fn clear_ref(b: &mut OpenApiBody, name: &Vec<char>)
    ensures
        final(b)@ == unref_body(old(b)@, name@),
{
    let hit = match &*b {
        OpenApiBody::SchemaRef(n) => eq(&chars_of(n.as_str()), name),
        _ => false,
    };
    if hit {
        *b = OpenApiBody::Empty;
    }
}

fn new_prop_exec(name: String) -> (r: OpenApiSchemaProp)
    ensures
        r@ == new_prop(name@),
{
    let r = OpenApiSchemaProp {
        name,
        kind: OpenApiPropType::String,
        required: false,
        nullable: false,
        format: OpenApiStringFormat::Plain,
        min: None,
        max: None,
        pattern: String::new(),
        enum_values: Vec::new(),
    };
    proof {
        assert(strings_of(r.enum_values@) =~= Seq::<Seq<char>>::empty());
    }
    r
}

impl OpenApiEditorState {
    /// Moves the endpoint cursor while browsing, back to the preview's
    /// top.
    pub fn move_endpoint(&mut self, d: isize)
        ensures
            oa_move_endpoint_post(*old(self), *final(self), d),
    {
        if matches!(self.mode, OpenApiEditorMode::Browse) {
            move_cursor(&mut self.endpoint_cursor, d, self.endpoints.len());
            self.preview_scroll = 0;
        }
    }

    /// Switches between the endpoints and the schemas pane; the preview
    /// goes back to its top either way.
    pub fn toggle_pane(&mut self)
        ensures
            oa_toggle_pane_post(*old(self), *final(self)),
    {
        let next = match &self.mode {
            OpenApiEditorMode::Browse => Some(OpenApiEditorMode::Schemas),
            OpenApiEditorMode::Schemas => Some(OpenApiEditorMode::Browse),
            _ => None,
        };
        match next {
            Some(m) => self.mode = m,
            None => {},
        }
        self.preview_scroll = 0;
    }

    /// Moves the schema cursor in the schemas pane, back to the first
    /// property and the preview's top.
    pub fn move_schema(&mut self, d: isize)
        ensures
            oa_move_schema_post(*old(self), *final(self), d),
    {
        if matches!(self.mode, OpenApiEditorMode::Schemas) {
            move_cursor(&mut self.schema_cursor, d, self.schemas.len());
            self.prop_cursor = 0;
            self.preview_scroll = 0;
        }
    }

    /// Moves the property cursor within the current schema, in the
    /// schemas pane.
    pub fn move_prop(&mut self, d: isize)
        ensures
            oa_move_prop_post(*old(self), *final(self), d),
    {
        if matches!(self.mode, OpenApiEditorMode::Schemas) && self.schema_cursor
            < self.schemas.len() {
            let n = self.schemas[self.schema_cursor].properties.len();
            move_cursor(&mut self.prop_cursor, d, n);
        }
    }

    /// Scrolls the preview, never above its top.
    pub fn scroll_preview(&mut self, d: isize)
        ensures
            oa_scroll_preview_post(*old(self), *final(self), d),
    {
        self.preview_scroll = apply_delta(self.preview_scroll, d, usize::MAX);
    }

    /// Starts adding an endpoint.
    pub fn start_add_endpoint(&mut self)
        ensures
            oa_start_add_endpoint_post(*old(self), *final(self)),
    {
        self.mode = OpenApiEditorMode::AddEndpoint;
    }

    /// Opens a prompt of the schemas pane, empty: `which` is 0 for a
    /// new schema, 1 for the pattern, 2 for the enum values, 3 for the
    /// minimum and 4 for the maximum of a property; nothing outside the
    /// schemas pane.
    pub fn start_schema_prompt(&mut self, which: u8)
        requires
            which <= 4,
        ensures
            oa_start_schema_prompt_post(*old(self), *final(self), which),
    {
        if !matches!(self.mode, OpenApiEditorMode::Schemas) {
            return;
        }
        self.mode = if which == 0 {
            OpenApiEditorMode::AddSchema { input: String::new() }
        } else if which == 1 {
            OpenApiEditorMode::EditPropPattern { input: String::new() }
        } else if which == 2 {
            OpenApiEditorMode::EditPropEnum { input: String::new() }
        } else if which == 3 {
            OpenApiEditorMode::EditPropMin { input: String::new() }
        } else {
            OpenApiEditorMode::EditPropMax { input: String::new() }
        };
    }

    /// Opens the prompt for a new name of the current schema, in the
    /// schemas pane.
    pub fn start_rename_schema(&mut self)
        ensures
            oa_start_rename_schema_post(*old(self), *final(self)),
    {
        if matches!(self.mode, OpenApiEditorMode::Schemas) && self.schema_cursor
            < self.schemas.len() {
            let current = copy_string(&self.schemas[self.schema_cursor].name);
            self.mode = OpenApiEditorMode::RenameSchema { input: current };
        }
    }

    /// Opens the prompt for the name of a new property of the current
    /// schema, in the schemas pane.
    pub fn start_add_prop(&mut self)
        ensures
            oa_start_add_prop_post(*old(self), *final(self)),
    {
        if matches!(self.mode, OpenApiEditorMode::Schemas) && self.schema_cursor
            < self.schemas.len() {
            self.mode = OpenApiEditorMode::AddProp { input: String::new() };
        }
    }

    /// Opens the prompt for a new name of the current property, in the
    /// schemas pane.
    pub fn start_rename_prop(&mut self)
        ensures
            oa_start_rename_prop_post(*old(self), *final(self)),
    {
        if matches!(self.mode, OpenApiEditorMode::Schemas) && self.schema_cursor
            < self.schemas.len() && self.prop_cursor
            < self.schemas[self.schema_cursor].properties.len() {
            let current = copy_string(
                &self.schemas[self.schema_cursor].properties[self.prop_cursor].name,
            );
            proof {
                assert(schemas_view(self.schemas@)[self.schema_cursor as int].properties[self.prop_cursor as int]
                    == self.schemas@[self.schema_cursor as int].properties@[self.prop_cursor as int]@);
            }
            self.mode = OpenApiEditorMode::RenameProp { input: current };
        }
    }

    /// Opens the prompt for the path of the current endpoint, holding
    /// its path.
    pub fn start_edit_path(&mut self)
        ensures
            oa_start_edit_path_post(*old(self), *final(self)),
    {
        if self.endpoint_cursor < self.endpoints.len() {
            let current = copy_string(&self.endpoints[self.endpoint_cursor].path);
            self.mode = OpenApiEditorMode::EditPath { input: current };
        }
    }

    /// Opens the prompt for the title (`which` 0), the version (1) or the
    /// server URL (2), holding its value.
    pub fn start_edit_info(&mut self, which: u8)
        requires
            which <= 2,
        ensures
            oa_start_edit_info_post(*old(self), *final(self), which),
    {
        self.mode = if which == 0 {
            OpenApiEditorMode::EditTitle { input: copy_string(&self.title) }
        } else if which == 1 {
            OpenApiEditorMode::EditVersion { input: copy_string(&self.version) }
        } else {
            OpenApiEditorMode::EditBaseUrl { input: copy_string(&self.base_url) }
        };
    }

    /// Replaces the current property of the schemas pane with `f` of it.
    fn edit_prop(&mut self, op: u8, d: isize)
        requires
            op <= 3,
            old(self).schema_cursor < old(self).schemas.len(),
            old(self).prop_cursor < old(self).schemas@[old(self).schema_cursor as int].properties.len(),
        ensures
            same_frame(*old(self), *final(self)),
            contents(*final(self)) == with_prop(contents(*old(self)), prop_op(op, d)),
    {
        let ghost c = contents(*self);
        let sc = self.schema_cursor;
        let pc = self.prop_cursor;
        let mut s = self.schemas.remove(sc);
        let ghost pv = props_view(s.properties@);
        let mut p = s.properties.remove(pc);
        if op == 0 {
            p.required = !p.required;
        } else if op == 1 {
            p.nullable = !p.nullable;
        } else if op == 2 {
            p.kind = cycle_prop_type(p.kind, d);
        } else {
            if p.kind == OpenApiPropType::String {
                p.format = cycle_string_format(p.format, d);
            }
        }
        let ghost np = p@;
        s.properties.insert(pc, p);
        proof {
            assert(props_view(s.properties@) =~= pv.update(pc as int, np));
        }
        let ghost ns = s@;
        self.schemas.insert(sc, s);
        proof {
            assert(schemas_view(self.schemas@) =~= c.schemas.update(sc as int, ns));
            assert(contents(*self) =~= with_prop(c, prop_op(op, d)));
        }
    }

    /// Flips the current property's `required` (`op` 0) or `nullable`
    /// (1), or cycles its type (2) or, for a string, its format (3), in
    /// the schemas pane.
    pub fn tweak_prop(&mut self, op: u8, d: isize)
        requires
            op <= 3,
        ensures
            oa_tweak_prop_post(*old(self), *final(self), op, d),
    {
        if !matches!(self.mode, OpenApiEditorMode::Schemas) {
            return;
        }
        if self.schema_cursor < self.schemas.len() && self.prop_cursor
            < self.schemas[self.schema_cursor].properties.len() {
            self.edit_prop(op, d);
        } else {
            proof {
                assert(!has_prop(contents(*self)));
            }
        }
    }

    /// Cycles the current endpoint's method (`op` 0), request body (1),
    /// response body (2), status (3) or content type (4), while
    /// browsing. The content type of the response follows the request's.
    pub fn tweak_endpoint(&mut self, op: u8, d: isize)
        requires
            op <= 4,
        ensures
            oa_tweak_endpoint_post(*old(self), *final(self), op, d),
    {
        if !matches!(self.mode, OpenApiEditorMode::Browse) {
            return;
        }
        let ec = self.endpoint_cursor;
        if ec >= self.endpoints.len() {
            return;
        }
        let ghost c = contents(*self);
        let mut e = self.endpoints.remove(ec);
        if op == 0 {
            e.method = cycle_method(e.method, d);
        } else if op == 1 {
            let mut b = OpenApiBody::Empty;
            std::mem::swap(&mut b, &mut e.request_body);
            e.request_body = cycle_body_with_schemas(b, d, &self.schemas);
        } else if op == 2 {
            let mut b = OpenApiBody::Empty;
            std::mem::swap(&mut b, &mut e.response_body);
            e.response_body = cycle_body_with_schemas(b, d, &self.schemas);
        } else if op == 3 {
            e.response_status = cycle_status(e.response_status, d);
        } else {
            let next = cycle_content_type(e.request_content_type.as_str(), d);
            e.response_content_type = copy_string(&next);
            e.request_content_type = next;
        }
        let ghost ne = e@;
        self.endpoints.insert(ec, e);
        proof {
            assert(endpoints_view(self.endpoints@) =~= c.endpoints.update(ec as int, ne));
            assert(contents(*self) =~= with_endpoint(c, endpoint_op(op, d, schema_names(self.schemas@))));
        }
    }

    /// Deletes the current endpoint while browsing; a default endpoint
    /// replaces the last one.
    pub fn delete_endpoint(&mut self)
        ensures
            oa_delete_endpoint_post(*old(self), *final(self)),
    {
        if !matches!(self.mode, OpenApiEditorMode::Browse) || self.endpoints.len() == 0 {
            return;
        }
        let ghost c = contents(*self);
        let idx = if self.endpoint_cursor < self.endpoints.len() {
            self.endpoint_cursor
        } else {
            self.endpoints.len() - 1
        };
        self.endpoints.remove(idx);
        if self.endpoints.len() == 0 {
            self.endpoints.push(OpenApiEndpoint::default_endpoint());
        }
        if self.endpoint_cursor >= self.endpoints.len() {
            self.endpoint_cursor = self.endpoints.len() - 1;
        }
        proof {
            let rest = c.endpoints.remove(idx as int);
            assert(endpoints_view(self.endpoints@) =~= if rest.len() == 0 {
                seq![default_endpoint()]
            } else {
                rest
            });
        }
    }

    /// Deletes the current schema in the schemas pane; bodies that
    /// referred to it refer to nothing.
    pub fn delete_schema(&mut self)
        ensures
            oa_delete_schema_post(*old(self), *final(self)),
    {
        if !matches!(self.mode, OpenApiEditorMode::Schemas) || self.schemas.len() == 0 {
            return;
        }
        let ghost c = contents(*self);
        let idx = if self.schema_cursor < self.schemas.len() {
            self.schema_cursor
        } else {
            self.schemas.len() - 1
        };
        let removed = self.schemas.remove(idx);
        let name = chars_of(removed.name.as_str());
        proof {
            assert(schemas_view(self.schemas@) =~= c.schemas.remove(idx as int));
        }
        let ghost eps0 = endpoints_view(self.endpoints@);
        let mut rest: Vec<OpenApiEndpoint> = Vec::new();
        std::mem::swap(&mut rest, &mut self.endpoints);
        let mut done: Vec<OpenApiEndpoint> = Vec::new();
        let ghost n = eps0.len();
        while rest.len() > 0
            invariant
                rest.len() + done.len() == n,
                n == eps0.len(),
                endpoints_view(rest@) == eps0.skip(done.len() as int),
                endpoints_view(done@) == eps0.take(done.len() as int).map_values(
                    |e: EndpointV| unref_endpoint(e, name@),
                ),
            decreases rest.len(),
        {
            let ghost k = done.len() as int;
            let ghost rv = endpoints_view(rest@);
            let ghost r0 = rest@;
            proof {
                assert(eps0.skip(k)[0] == eps0[k]);
                assert(rv[0] == r0[0]@);
            }
            let mut e = rest.remove(0);
            proof {
                assert(e == r0[0]);
                assert(e@ == eps0[k]);
                assert(endpoints_view(rest@) =~= rv.drop_first());
                assert(rv.drop_first() =~= eps0.skip(k + 1));
            }
            clear_ref(&mut e.request_body, &name);
            clear_ref(&mut e.response_body, &name);
            let ghost dv = endpoints_view(done@);
            done.push(e);
            proof {
                assert(endpoints_view(done@) =~= dv.push(e@));
                assert(eps0.take(k + 1).map_values(|e: EndpointV| unref_endpoint(e, name@)) =~= eps0.take(k).map_values(|e: EndpointV| unref_endpoint(e, name@)).push(unref_endpoint(eps0[k], name@)));
            }
        }
        self.endpoints = done;
        proof {
            assert(eps0.take(n as int) =~= eps0);
        }
        if self.schema_cursor >= self.schemas.len() {
            self.schema_cursor = if self.schemas.len() == 0 {
                0
            } else {
                self.schemas.len() - 1
            };
        }
        self.prop_cursor = 0;
    }

    /// Deletes the current property in the schemas pane.
    pub fn delete_prop(&mut self)
        ensures
            oa_delete_prop_post(*old(self), *final(self)),
    {
        let sc = self.schema_cursor;
        if !matches!(self.mode, OpenApiEditorMode::Schemas) || sc >= self.schemas.len() {
            return;
        }
        if self.schemas[sc].properties.len() == 0 {
            return;
        }
        let ghost c = contents(*self);
        let mut s = self.schemas.remove(sc);
        let ghost pv = props_view(s.properties@);
        let idx = if self.prop_cursor < s.properties.len() {
            self.prop_cursor
        } else {
            s.properties.len() - 1
        };
        s.properties.remove(idx);
        proof {
            assert(props_view(s.properties@) =~= pv.remove(idx as int));
        }
        if self.prop_cursor >= s.properties.len() {
            self.prop_cursor = if s.properties.len() == 0 {
                0
            } else {
                s.properties.len() - 1
            };
        }
        let ghost ns = s@;
        self.schemas.insert(sc, s);
        proof {
            assert(schemas_view(self.schemas@) =~= c.schemas.update(sc as int, ns));
        }
    }

    /// Applies the open prompt: adds an endpoint, a schema or a
    /// property (not with a blank name), renames, or sets a property's
    /// pattern, enum values or bounds, an endpoint's path or the
    /// contract's title, version or server URL (not to blank text). The
    /// schema prompts go back to the schemas pane, the others to
    /// browsing.
    pub fn confirm(&mut self)
        ensures
            oa_confirm_post(*old(self), *final(self)),
    {
        let ghost c = contents(*self);
        let mut mode = OpenApiEditorMode::Browse;
        std::mem::swap(&mut mode, &mut self.mode);
        let ghost m = mode;
        let to_schemas = match &mode {
            OpenApiEditorMode::Schemas => true,
            OpenApiEditorMode::AddSchema { .. } => true,
            OpenApiEditorMode::RenameSchema { .. } => true,
            OpenApiEditorMode::AddProp { .. } => true,
            OpenApiEditorMode::RenameProp { .. } => true,
            OpenApiEditorMode::EditPropPattern { .. } => true,
            OpenApiEditorMode::EditPropEnum { .. } => true,
            OpenApiEditorMode::EditPropMin { .. } => true,
            OpenApiEditorMode::EditPropMax { .. } => true,
            _ => false,
        };
        match mode {
            OpenApiEditorMode::AddEndpoint => {
                self.endpoints.push(OpenApiEndpoint::default_endpoint());
                self.endpoint_cursor = self.endpoints.len() - 1;
            },
            OpenApiEditorMode::AddSchema { input } => {
                let t = v_trim(&chars_of(input.as_str()));
                if t.len() > 0 {
                    let sch = OpenApiSchema {
                        name: string_of(&t),
                        additional_properties: false,
                        properties: Vec::new(),
                    };
                    proof {
                        assert(props_view(sch.properties@) =~= Seq::<PropV>::empty());
                    }
                    self.schemas.push(sch);
                    self.schema_cursor = self.schemas.len() - 1;
                    self.prop_cursor = 0;
                }
            },
            OpenApiEditorMode::RenameSchema { input } => {
                let t = v_trim(&chars_of(input.as_str()));
                let sc = self.schema_cursor;
                if t.len() > 0 && sc < self.schemas.len() {
                    let mut sch = self.schemas.remove(sc);
                    sch.name = string_of(&t);
                    let ghost ns = sch@;
                    self.schemas.insert(sc, sch);
                    proof {
                        assert(schemas_view(self.schemas@) =~= c.schemas.update(sc as int, ns));
                    }
                }
            },
            OpenApiEditorMode::AddProp { input } => {
                let t = v_trim(&chars_of(input.as_str()));
                let sc = self.schema_cursor;
                if t.len() > 0 && sc < self.schemas.len() {
                    let mut sch = self.schemas.remove(sc);
                    let ghost pv = props_view(sch.properties@);
                    let p = new_prop_exec(string_of(&t));
                    sch.properties.push(p);
                    proof {
                        assert(props_view(sch.properties@) =~= pv.push(new_prop(t@)));
                    }
                    self.prop_cursor = sch.properties.len() - 1;
                    let ghost ns = sch@;
                    self.schemas.insert(sc, sch);
                    proof {
                        assert(schemas_view(self.schemas@) =~= c.schemas.update(sc as int, ns));
                    }
                }
            },
            OpenApiEditorMode::RenameProp { input } => {
                let sc = self.schema_cursor;
                let pc = self.prop_cursor;
                if v_trim(&chars_of(input.as_str())).len() > 0 && sc < self.schemas.len() && pc < self.schemas[sc].properties.len() {
                    let mut s = self.schemas.remove(sc);
                    let ghost pv = props_view(s.properties@);
                    let mut p = s.properties.remove(pc);
                    p.name = string_of(&v_trim(&chars_of(input.as_str())));
                    let ghost np = p@;
                    s.properties.insert(pc, p);
                    proof {
                        assert(props_view(s.properties@) =~= pv.update(pc as int, np));
                    }
                    let ghost ns = s@;
                    self.schemas.insert(sc, s);
                    proof {
                        assert(schemas_view(self.schemas@) =~= c.schemas.update(sc as int, ns));
                    }
                }
            },
            OpenApiEditorMode::EditPropPattern { input } => {
                let sc = self.schema_cursor;
                let pc = self.prop_cursor;
                if sc < self.schemas.len() && pc < self.schemas[sc].properties.len() {
                    let mut s = self.schemas.remove(sc);
                    let ghost pv = props_view(s.properties@);
                    let mut p = s.properties.remove(pc);
                    p.pattern = string_of(&v_trim(&chars_of(input.as_str())));
                    let ghost np = p@;
                    s.properties.insert(pc, p);
                    proof {
                        assert(props_view(s.properties@) =~= pv.update(pc as int, np));
                    }
                    let ghost ns = s@;
                    self.schemas.insert(sc, s);
                    proof {
                        assert(schemas_view(self.schemas@) =~= c.schemas.update(sc as int, ns));
                    }
                }
            },
            OpenApiEditorMode::EditPropEnum { input } => {
                let sc = self.schema_cursor;
                let pc = self.prop_cursor;
                if sc < self.schemas.len() && pc < self.schemas[sc].properties.len() {
                    let mut s = self.schemas.remove(sc);
                    let ghost pv = props_view(s.properties@);
                    let mut p = s.properties.remove(pc);
                    p.enum_values = enum_values_exec(&input);
                    let ghost np = p@;
                    s.properties.insert(pc, p);
                    proof {
                        assert(props_view(s.properties@) =~= pv.update(pc as int, np));
                    }
                    let ghost ns = s@;
                    self.schemas.insert(sc, s);
                    proof {
                        assert(schemas_view(self.schemas@) =~= c.schemas.update(sc as int, ns));
                    }
                }
            },
            OpenApiEditorMode::EditPropMin { input } => {
                let sc = self.schema_cursor;
                let pc = self.prop_cursor;
                if sc < self.schemas.len() && pc < self.schemas[sc].properties.len() {
                    let mut s = self.schemas.remove(sc);
                    let ghost pv = props_view(s.properties@);
                    let mut p = s.properties.remove(pc);
                    p.min = parse_i64_exec(&v_trim(&chars_of(input.as_str())));
                    let ghost np = p@;
                    s.properties.insert(pc, p);
                    proof {
                        assert(props_view(s.properties@) =~= pv.update(pc as int, np));
                    }
                    let ghost ns = s@;
                    self.schemas.insert(sc, s);
                    proof {
                        assert(schemas_view(self.schemas@) =~= c.schemas.update(sc as int, ns));
                    }
                }
            },
            OpenApiEditorMode::EditPropMax { input } => {
                let sc = self.schema_cursor;
                let pc = self.prop_cursor;
                if sc < self.schemas.len() && pc < self.schemas[sc].properties.len() {
                    let mut s = self.schemas.remove(sc);
                    let ghost pv = props_view(s.properties@);
                    let mut p = s.properties.remove(pc);
                    p.max = parse_i64_exec(&v_trim(&chars_of(input.as_str())));
                    let ghost np = p@;
                    s.properties.insert(pc, p);
                    proof {
                        assert(props_view(s.properties@) =~= pv.update(pc as int, np));
                    }
                    let ghost ns = s@;
                    self.schemas.insert(sc, s);
                    proof {
                        assert(schemas_view(self.schemas@) =~= c.schemas.update(sc as int, ns));
                    }
                }
            },
            OpenApiEditorMode::EditPath { input } => {
                let t = v_trim(&chars_of(input.as_str()));
                let ec = self.endpoint_cursor;
                if t.len() > 0 && ec < self.endpoints.len() {
                    let mut e = self.endpoints.remove(ec);
                    e.path = string_of(&t);
                    let ghost ne = e@;
                    self.endpoints.insert(ec, e);
                    proof {
                        assert(endpoints_view(self.endpoints@) =~= c.endpoints.update(ec as int, ne));
                    }
                }
            },
            OpenApiEditorMode::EditTitle { input } => {
                let t = v_trim(&chars_of(input.as_str()));
                if t.len() > 0 {
                    self.title = string_of(&t);
                }
            },
            OpenApiEditorMode::EditVersion { input } => {
                let t = v_trim(&chars_of(input.as_str()));
                if t.len() > 0 {
                    self.version = string_of(&t);
                }
            },
            OpenApiEditorMode::EditBaseUrl { input } => {
                let t = v_trim(&chars_of(input.as_str()));
                if t.len() > 0 {
                    self.base_url = string_of(&t);
                }
            },
            _ => {},
        }
        self.mode = if to_schemas {
            OpenApiEditorMode::Schemas
        } else {
            OpenApiEditorMode::Browse
        };
        proof {
            assert(contents(*self) =~= oa_confirmed(m, c));
        }
    }

    /// Types `c` into the open prompt.
    pub fn input_char(&mut self, c: char)
        ensures
            oa_input_char_post(*old(self), *final(self), c),
    {
        match &mut self.mode {
            OpenApiEditorMode::AddSchema { input } => push_char(input, c),
            OpenApiEditorMode::RenameSchema { input } => push_char(input, c),
            OpenApiEditorMode::AddProp { input } => push_char(input, c),
            OpenApiEditorMode::RenameProp { input } => push_char(input, c),
            OpenApiEditorMode::EditPropPattern { input } => push_char(input, c),
            OpenApiEditorMode::EditPropEnum { input } => push_char(input, c),
            OpenApiEditorMode::EditPropMin { input } => push_char(input, c),
            OpenApiEditorMode::EditPropMax { input } => push_char(input, c),
            OpenApiEditorMode::EditPath { input } => push_char(input, c),
            OpenApiEditorMode::EditTitle { input } => push_char(input, c),
            OpenApiEditorMode::EditVersion { input } => push_char(input, c),
            OpenApiEditorMode::EditBaseUrl { input } => push_char(input, c),
            _ => {},
        }
    }

    /// Deletes the last character of the open prompt.
    pub fn backspace(&mut self)
        ensures
            oa_backspace_post(*old(self), *final(self)),
    {
        match &mut self.mode {
            OpenApiEditorMode::AddSchema { input } => {
                pop_char(input);
            },
            OpenApiEditorMode::RenameSchema { input } => {
                pop_char(input);
            },
            OpenApiEditorMode::AddProp { input } => {
                pop_char(input);
            },
            OpenApiEditorMode::RenameProp { input } => {
                pop_char(input);
            },
            OpenApiEditorMode::EditPropPattern { input } => {
                pop_char(input);
            },
            OpenApiEditorMode::EditPropEnum { input } => {
                pop_char(input);
            },
            OpenApiEditorMode::EditPropMin { input } => {
                pop_char(input);
            },
            OpenApiEditorMode::EditPropMax { input } => {
                pop_char(input);
            },
            OpenApiEditorMode::EditPath { input } => {
                pop_char(input);
            },
            OpenApiEditorMode::EditTitle { input } => {
                pop_char(input);
            },
            OpenApiEditorMode::EditVersion { input } => {
                pop_char(input);
            },
            OpenApiEditorMode::EditBaseUrl { input } => {
                pop_char(input);
            },
            _ => {},
        }
    }
}

/// The effect of `tweak_prop(op, d)` on a property.
pub open spec fn prop_op(op: u8, d: isize) -> spec_fn(PropV) -> PropV {
    |p: PropV|
        if op == 0 {
            PropV { required: !p.required, ..p }
        } else if op == 1 {
            PropV { nullable: !p.nullable, ..p }
        } else if op == 2 {
            PropV {
                kind: all_prop_types()[wrap_index(4, prop_type_index(p.kind), d as int)],
                ..p
            }
        } else if p.kind == OpenApiPropType::String {
            PropV {
                format: all_string_formats()[wrap_index(
                    4,
                    string_format_index(p.format),
                    d as int,
                )],
                ..p
            }
        } else {
            p
        }
}

/// The effect of `tweak_endpoint(op, d)` on an endpoint, with the given
/// schema names.
pub open spec fn endpoint_op(op: u8, d: isize, names: Seq<Seq<char>>) -> spec_fn(EndpointV) -> EndpointV {
    |e: EndpointV|
        if op == 0 {
            EndpointV {
                method: all_methods()[wrap_index(5, method_index(e.method), d as int)],
                ..e
            }
        } else if op == 1 {
            EndpointV { request_body: cycled_body(e.request_body, d as int, names), ..e }
        } else if op == 2 {
            EndpointV { response_body: cycled_body(e.response_body, d as int, names), ..e }
        } else if op == 3 {
            EndpointV {
                response_status: all_statuses()[wrap_index(
                    11,
                    index_or_zero(all_statuses(), e.response_status),
                    d as int,
                )],
                ..e
            }
        } else {
            let t = all_content_types()[wrap_index(
                4,
                index_or_zero(all_content_types(), e.request_content_type),
                d as int,
            )];
            EndpointV { request_content_type: t, response_content_type: t, ..e }
        }
}

/// `b` is `a` after `move_endpoint`.
pub open spec fn oa_move_endpoint_post(a: OpenApiEditorState, b: OpenApiEditorState, d: isize) -> bool {
    &&& (if a.mode is Browse {
                b == (OpenApiEditorState {
                    endpoint_cursor: if a.endpoints.len() == 0 {
                        0
                    } else {
                        clamp_delta(
                            a.endpoint_cursor as int,
                            d as int,
                            a.endpoints.len() - 1,
                        ) as usize
                    },
                    preview_scroll: 0,
                    ..a
                })
            } else {
                b == a
            })
}

/// `b` is `a` after `toggle_pane`.
pub open spec fn oa_toggle_pane_post(a: OpenApiEditorState, b: OpenApiEditorState) -> bool {
    &&& (b.mode == match a.mode {
                OpenApiEditorMode::Browse => OpenApiEditorMode::Schemas,
                OpenApiEditorMode::Schemas => OpenApiEditorMode::Browse,
                m => m,
            })
    &&& (b.preview_scroll == 0)
    &&& (contents(b) == contents(a))
    &&& (b.form_field_index == a.form_field_index)
}

/// `b` is `a` after `move_schema`.
pub open spec fn oa_move_schema_post(a: OpenApiEditorState, b: OpenApiEditorState, d: isize) -> bool {
    &&& (if a.mode is Schemas {
                b == (OpenApiEditorState {
                    schema_cursor: if a.schemas.len() == 0 {
                        0
                    } else {
                        clamp_delta(
                            a.schema_cursor as int,
                            d as int,
                            a.schemas.len() - 1,
                        ) as usize
                    },
                    prop_cursor: 0,
                    preview_scroll: 0,
                    ..a
                })
            } else {
                b == a
            })
}

/// `b` is `a` after `move_prop`.
pub open spec fn oa_move_prop_post(a: OpenApiEditorState, b: OpenApiEditorState, d: isize) -> bool {
    &&& (if a.mode is Schemas && a.schema_cursor < a.schemas.len() {
                let n = a.schemas@[a.schema_cursor as int].properties.len();
                b == (OpenApiEditorState {
                    prop_cursor: if n == 0 {
                        0
                    } else {
                        clamp_delta(a.prop_cursor as int, d as int, n - 1) as usize
                    },
                    ..a
                })
            } else {
                b == a
            })
}

/// `b` is `a` after `scroll_preview`.
pub open spec fn oa_scroll_preview_post(a: OpenApiEditorState, b: OpenApiEditorState, d: isize) -> bool {
    &&& (b == (OpenApiEditorState {
                preview_scroll: clamp_delta(
                    a.preview_scroll as int,
                    d as int,
                    usize::MAX as int,
                ) as usize,
                ..a
            }))
}

/// `b` is `a` after `start_add_endpoint`.
pub open spec fn oa_start_add_endpoint_post(a: OpenApiEditorState, b: OpenApiEditorState) -> bool {
    &&& (oa_only_mode(a, b))
    &&& (b.mode is AddEndpoint)
}

/// `b` is `a` after `start_schema_prompt`.
pub open spec fn oa_start_schema_prompt_post(a: OpenApiEditorState, b: OpenApiEditorState, which: u8) -> bool {
    &&& (if a.mode is Schemas {
                &&& oa_only_mode(a, b)
                &&& match b.mode {
                    OpenApiEditorMode::AddSchema { input } => which == 0 && input@.len() == 0,
                    OpenApiEditorMode::EditPropPattern { input } => which == 1 && input@.len() == 0,
                    OpenApiEditorMode::EditPropEnum { input } => which == 2 && input@.len() == 0,
                    OpenApiEditorMode::EditPropMin { input } => which == 3 && input@.len() == 0,
                    OpenApiEditorMode::EditPropMax { input } => which == 4 && input@.len() == 0,
                    _ => false,
                }
            } else {
                b == a
            })
}

/// `b` is `a` after `start_rename_schema`.
pub open spec fn oa_start_rename_schema_post(a: OpenApiEditorState, b: OpenApiEditorState) -> bool {
    &&& (if a.mode is Schemas && a.schema_cursor < a.schemas.len() {
                &&& oa_only_mode(a, b)
                &&& b.mode matches OpenApiEditorMode::RenameSchema { input } && input@
                    == a.schemas@[a.schema_cursor as int].name@
            } else {
                b == a
            })
}

/// `b` is `a` after `start_add_prop`.
pub open spec fn oa_start_add_prop_post(a: OpenApiEditorState, b: OpenApiEditorState) -> bool {
    &&& (if a.mode is Schemas && a.schema_cursor < a.schemas.len() {
                &&& oa_only_mode(a, b)
                &&& b.mode matches OpenApiEditorMode::AddProp { input } && input@.len()
                    == 0
            } else {
                b == a
            })
}

/// `b` is `a` after `start_rename_prop`.
pub open spec fn oa_start_rename_prop_post(a: OpenApiEditorState, b: OpenApiEditorState) -> bool {
    &&& (if a.mode is Schemas && has_prop(contents(a)) {
                &&& oa_only_mode(a, b)
                &&& b.mode matches OpenApiEditorMode::RenameProp { input } && input@
                    == contents(a).schemas[a.schema_cursor as int].properties[a.prop_cursor as int].name
            } else {
                b == a
            })
}

/// `b` is `a` after `start_edit_path`.
pub open spec fn oa_start_edit_path_post(a: OpenApiEditorState, b: OpenApiEditorState) -> bool {
    &&& (if a.endpoint_cursor < a.endpoints.len() {
                &&& oa_only_mode(a, b)
                &&& b.mode matches OpenApiEditorMode::EditPath { input } && input@
                    == a.endpoints@[a.endpoint_cursor as int].path@
            } else {
                b == a
            })
}

/// `b` is `a` after `start_edit_info`.
pub open spec fn oa_start_edit_info_post(a: OpenApiEditorState, b: OpenApiEditorState, which: u8) -> bool {
    &&& (oa_only_mode(a, b))
    &&& (match b.mode {
                OpenApiEditorMode::EditTitle { input } => which == 0 && input@ == a.title@,
                OpenApiEditorMode::EditVersion { input } => which == 1 && input@
                    == a.version@,
                OpenApiEditorMode::EditBaseUrl { input } => which == 2 && input@
                    == a.base_url@,
                _ => false,
            })
}

/// `b` is `a` after `tweak_prop`.
pub open spec fn oa_tweak_prop_post(a: OpenApiEditorState, b: OpenApiEditorState, op: u8, d: isize) -> bool {
    &&& (if a.mode is Schemas {
                &&& same_frame(a, b)
                &&& contents(b) == with_prop(contents(a), prop_op(op, d))
            } else {
                b == a
            })
}

/// `b` is `a` after `tweak_endpoint`.
pub open spec fn oa_tweak_endpoint_post(a: OpenApiEditorState, b: OpenApiEditorState, op: u8, d: isize) -> bool {
    &&& (if a.mode is Browse {
                &&& same_frame(a, b)
                &&& contents(b) == with_endpoint(
                    contents(a),
                    endpoint_op(op, d, schema_names(a.schemas@)),
                )
            } else {
                b == a
            })
}

/// `b` is `a` after `delete_endpoint`.
pub open spec fn oa_delete_endpoint_post(a: OpenApiEditorState, b: OpenApiEditorState) -> bool {
    &&& (if a.mode is Browse && a.endpoints.len() > 0 {
                let c = contents(a);
                let rest = c.endpoints.remove(
                    delete_idx(c.endpoint_cursor, c.endpoints.len() as int),
                );
                let eps = if rest.len() == 0 {
                    seq![default_endpoint()]
                } else {
                    rest
                };
                &&& same_frame(a, b)
                &&& contents(b) == ContractV {
                    endpoints: eps,
                    endpoint_cursor: clamp_cursor(c.endpoint_cursor, eps.len() as int),
                    ..c
                }
            } else {
                b == a
            })
}

/// `b` is `a` after `delete_schema`.
pub open spec fn oa_delete_schema_post(a: OpenApiEditorState, b: OpenApiEditorState) -> bool {
    &&& (if a.mode is Schemas && a.schemas.len() > 0 {
                let c = contents(a);
                let idx = delete_idx(c.schema_cursor, c.schemas.len() as int);
                let name = c.schemas[idx].name;
                let rest = c.schemas.remove(idx);
                &&& same_frame(a, b)
                &&& contents(b) == ContractV {
                    endpoints: c.endpoints.map_values(|e: EndpointV| unref_endpoint(e, name)),
                    schemas: rest,
                    schema_cursor: clamp_cursor(c.schema_cursor, rest.len() as int),
                    prop_cursor: 0,
                    ..c
                }
            } else {
                b == a
            })
}

/// `b` is `a` after `delete_prop`.
pub open spec fn oa_delete_prop_post(a: OpenApiEditorState, b: OpenApiEditorState) -> bool {
    &&& (({
                let c = contents(a);
                if a.mode is Schemas && 0 <= c.schema_cursor < c.schemas.len()
                    && c.schemas[c.schema_cursor].properties.len() > 0 {
                    let s = c.schemas[c.schema_cursor];
                    let rest = s.properties.remove(
                        delete_idx(c.prop_cursor, s.properties.len() as int),
                    );
                    &&& same_frame(a, b)
                    &&& contents(b) == ContractV {
                        schemas: c.schemas.update(
                            c.schema_cursor,
                            SchemaV { properties: rest, ..s },
                        ),
                        prop_cursor: clamp_cursor(c.prop_cursor, rest.len() as int),
                        ..c
                    }
                } else {
                    b == a
                }
            }))
}

/// `b` is `a` after `confirm`.
pub open spec fn oa_confirm_post(a: OpenApiEditorState, b: OpenApiEditorState) -> bool {
    &&& (b.mode == mode_after_confirm(a.mode))
    &&& (b.form_field_index == a.form_field_index)
    &&& (b.preview_scroll == a.preview_scroll)
    &&& (contents(b) == oa_confirmed(a.mode, contents(a)))
}

/// `b` is `a` after `input_char`.
pub open spec fn oa_input_char_post(a: OpenApiEditorState, b: OpenApiEditorState, c: char) -> bool {
    &&& (oa_only_mode(a, b))
    &&& (match prompt_input(a.mode) {
                Some(t) => same_prompt(a.mode, b.mode, t.push(c)),
                None => b.mode == a.mode,
            })
}

/// `b` is `a` after `backspace`.
pub open spec fn oa_backspace_post(a: OpenApiEditorState, b: OpenApiEditorState) -> bool {
    &&& (oa_only_mode(a, b))
    &&& (match prompt_input(a.mode) {
                Some(t) => same_prompt(
                    a.mode,
                    b.mode,
                    if t.len() > 0 {
                        t.drop_last()
                    } else {
                        t
                    },
                ),
                None => b.mode == a.mode,
            })
}

} // verus!
