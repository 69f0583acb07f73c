//! Template field kinds, select options and the names of JSON value
//! types, as field validation reports them.

use vstd::prelude::*;
use crate::entities::FieldValue;

verus! {

/// Every kind of field a template can declare.
#[derive(Clone, Copy, Debug, PartialEq, Eq, Structural)]
pub enum FieldKind {
    Text,
    Textarea,
    Select,
    Multiselect,
    Number,
    Boolean,
    FilePicker,
    Glob,
    CmdOutput,
    MarkdownNote,
    Ref,
    Component,
    SequenceGram,
    CodeBlocks,
    Gherkin,
    OpenApi,
}

impl FieldKind {
    /// Whether a field of this kind carries a value at all; a markdown
    /// note is documentation only.
    pub fn has_value(self) -> (r: bool)
        ensures
            r == (self != FieldKind::MarkdownNote),
    {
        !matches!(self, FieldKind::MarkdownNote)
    }

    /// The tag a template writes for this kind (`kind = "..."`).
    pub fn tag(self) -> (r: &'static str)
        ensures
            r@ == kind_tag(self),
    {
        proof {
            reveal_strlit("text");
            reveal_strlit("textarea");
            reveal_strlit("select");
            reveal_strlit("multiselect");
            reveal_strlit("number");
            reveal_strlit("boolean");
            reveal_strlit("file_picker");
            reveal_strlit("glob");
            reveal_strlit("cmd_output");
            reveal_strlit("markdown_note");
            reveal_strlit("ref");
            reveal_strlit("component");
            reveal_strlit("sequence-gram");
            reveal_strlit("code-blocks");
            reveal_strlit("gherkin");
            reveal_strlit("openapi");
        }
        match self {
            FieldKind::Text => "text",
            FieldKind::Textarea => "textarea",
            FieldKind::Select => "select",
            FieldKind::Multiselect => "multiselect",
            FieldKind::Number => "number",
            FieldKind::Boolean => "boolean",
            FieldKind::FilePicker => "file_picker",
            FieldKind::Glob => "glob",
            FieldKind::CmdOutput => "cmd_output",
            FieldKind::MarkdownNote => "markdown_note",
            FieldKind::Ref => "ref",
            FieldKind::Component => "component",
            FieldKind::SequenceGram => "sequence-gram",
            FieldKind::CodeBlocks => "code-blocks",
            FieldKind::Gherkin => "gherkin",
            FieldKind::OpenApi => "openapi",
        }
    }

    /// Whether the form shows a value of this kind as multi-line text.
    pub fn is_multiline(self) -> (r: bool)
        ensures
            r == (self == FieldKind::Textarea || self == FieldKind::SequenceGram || self
                == FieldKind::CodeBlocks || self == FieldKind::Gherkin || self
                == FieldKind::OpenApi),
    {
        matches!(
            self,
            FieldKind::Textarea | FieldKind::SequenceGram | FieldKind::CodeBlocks
                | FieldKind::Gherkin | FieldKind::OpenApi
        )
    }
}

/// The tag of each field kind.
pub open spec fn kind_tag(k: FieldKind) -> Seq<char> {
    match k {
        FieldKind::Text => "text"@,
        FieldKind::Textarea => "textarea"@,
        FieldKind::Select => "select"@,
        FieldKind::Multiselect => "multiselect"@,
        FieldKind::Number => "number"@,
        FieldKind::Boolean => "boolean"@,
        FieldKind::FilePicker => "file_picker"@,
        FieldKind::Glob => "glob"@,
        FieldKind::CmdOutput => "cmd_output"@,
        FieldKind::MarkdownNote => "markdown_note"@,
        FieldKind::Ref => "ref"@,
        FieldKind::Component => "component"@,
        FieldKind::SequenceGram => "sequence-gram"@,
        FieldKind::CodeBlocks => "code-blocks"@,
        FieldKind::Gherkin => "gherkin"@,
        FieldKind::OpenApi => "openapi"@,
    }
}

/// A select option: a bare id, or an id with a display label.
#[derive(Clone, Debug)]
pub enum OptionItem {
    Bare(String),
    Labeled { id: String, label: String },
}

impl OptionItem {
    /// The option's id.
    pub fn id(&self) -> (r: &str)
        ensures
            r@ == match self {
                OptionItem::Bare(s) => s@,
                OptionItem::Labeled { id, .. } => id@,
            },
    {
        match self {
            OptionItem::Bare(s) => s.as_str(),
            OptionItem::Labeled { id, .. } => id.as_str(),
        }
    }

    /// The option's label; a bare option is its own label.
    pub fn label(&self) -> (r: &str)
        ensures
            r@ == match self {
                OptionItem::Bare(s) => s@,
                OptionItem::Labeled { label, .. } => label@,
            },
    {
        match self {
            OptionItem::Bare(s) => s.as_str(),
            OptionItem::Labeled { label, .. } => label.as_str(),
        }
    }
}

/// The type of a JSON value, as an error message names it.
#[derive(Clone, Copy, Debug, PartialEq, Eq, Structural)]
pub enum ValueType {
    String,
    Number,
    Bool,
    Array,
    Object,
    Null,
}

/// The name of each value type.
pub open spec fn value_type_name(t: ValueType) -> Seq<char> {
    match t {
        ValueType::String => "string"@,
        ValueType::Number => "number"@,
        ValueType::Bool => "boolean"@,
        ValueType::Array => "array"@,
        ValueType::Object => "object"@,
        ValueType::Null => "null"@,
    }
}

impl ValueType {
    /// The type's name.
    pub fn as_static(self) -> (r: &'static str)
        ensures
            r@ == value_type_name(self),
    {
        proof {
            reveal_strlit("string");
            reveal_strlit("number");
            reveal_strlit("boolean");
            reveal_strlit("array");
            reveal_strlit("object");
            reveal_strlit("null");
        }
        match self {
            ValueType::String => "string",
            ValueType::Number => "number",
            ValueType::Bool => "boolean",
            ValueType::Array => "array",
            ValueType::Object => "object",
            ValueType::Null => "null",
        }
    }
}

/// Declarative checks on a field's value; which apply depends on the
/// field's kind.
#[derive(Clone, Debug)]
pub struct Validation {
    pub min_length: Option<usize>,
    pub max_length: Option<usize>,
    pub regex: Option<String>,
    /// The allowed values, each as its JSON text.
    pub allowed_values: Option<Vec<String>>,
}

impl Validation {
    /// No checks.
    pub fn none() -> (r: Validation)
        ensures
            r.min_length is None,
            r.max_length is None,
            r.regex is None,
            r.allowed_values is None,
    {
        Validation { min_length: None, max_length: None, regex: None, allowed_values: None }
    }
}

/// One field a template declares.
#[derive(Clone, Debug)]
pub struct Field {
    pub id: String,
    pub kind: FieldKind,
    pub label: String,
    pub help: Option<String>,
    pub placeholder: Option<String>,
    pub required: bool,
    pub default: Option<FieldValue>,
    /// An expression over the task that says when the field shows.
    pub show_if: Option<String>,
    pub validation: Validation,
    pub options: Vec<OptionItem>,
}

} // verus!
