//! Entity identifiers: 128-bit UUID values, one type per entity kind,
//! written in the hyphenated lower-case form; and agent slugs.

use vstd::prelude::*;

verus! {

/// The lower-case hexadecimal digit of `n < 16`.
pub open spec fn hex_digit(n: nat) -> char {
    if n < 10 {
        ((n + 48) as u32) as char
    } else {
        ((n + 87) as u32) as char
    }
}

/// The last `k` hexadecimal digits of `v`, most significant first.
pub open spec fn hex_digits(v: nat, k: nat) -> Seq<char>
    decreases k,
{
    if k == 0 {
        Seq::empty()
    } else {
        hex_digits(v / 16, (k - 1) as nat).push(hex_digit(v % 16))
    }
}

/// The hyphenated form of a UUID value: 32 lower-case hex digits in
/// groups of 8, 4, 4, 4 and 12.
pub open spec fn hyphenated(v: u128) -> Seq<char> {
    let h = hex_digits(v as nat, 32);
    h.subrange(0, 8) + seq!['-'] + h.subrange(8, 12) + seq!['-'] + h.subrange(12, 16) + seq!['-']
        + h.subrange(16, 20) + seq!['-'] + h.subrange(20, 32)
}

/// What `uuid::Uuid::parse_str` reads from a text, as a 128-bit value.
pub uninterp spec fn uuid_parsed(s: Seq<char>) -> Option<u128>;

/// Calls `uuid::Uuid::now_v7()`: a fresh time-ordered id, as its 128-bit
/// value. Nothing is claimed of the value: it depends on the clock and on
/// chance. The call panics when the system clock reads earlier than the
/// Unix epoch (the crate's `Timestamp::now`), as the original's id
/// creation does; that is a state of the machine, not an argument, so no
/// `requires` can leave it out.
#[verifier::external_body]
fn uuid_now_v7() -> (r: u128) {
    uuid::Uuid::now_v7().as_u128()
}

/// Calls `uuid::Uuid::from_u128(v).to_string()`. The claim: the text is
/// the hyphenated lower-case form (the crate's `Display` writes
/// `as_hyphenated()` in lower case).
#[verifier::external_body]
fn uuid_text(v: u128) -> (r: String)
    ensures
        r@ == hyphenated(v),
{
    uuid::Uuid::from_u128(v).to_string()
}

/// Calls `uuid::Uuid::parse_str(s)`, giving the parsed value or nothing.
/// The claims: the result is a function of the text, and the hyphenated
/// form of a value reads back as that value (the crate's documentation:
/// every format it writes is accepted).
#[verifier::external_body]
fn uuid_parse(s: &str) -> (r: Option<u128>)
    ensures
        r == uuid_parsed(s@),
        forall|v: u128| s@ == hyphenated(v) ==> r == Some(v),
{
    match uuid::Uuid::parse_str(s) {
        Ok(u) => Some(u.as_u128()),
        Err(_) => None,
    }
}

/// A text that is not an id.
#[derive(Clone, Copy, Debug, PartialEq, Eq, Structural)]
pub struct IdParseError;

/// Identifies a project.
#[derive(Clone, Copy, Debug, PartialEq, Eq, Hash, Structural)]
pub struct ProjectId(pub u128);

impl ProjectId {
    /// A new time-ordered id.
    pub fn new() -> (r: ProjectId) {
        ProjectId(uuid_now_v7())
    }

    /// The all-zero id.
    pub fn nil() -> (r: ProjectId)
        ensures
            r.0 == 0,
    {
        ProjectId(0)
    }

    /// The hyphenated form of the id.
    pub fn to_string(&self) -> (r: String)
        ensures
            r@ == hyphenated(self.0),
    {
        uuid_text(self.0)
    }

    /// Reads an id in any form `uuid` accepts.
    pub fn parse(s: &str) -> (r: Result<ProjectId, IdParseError>)
        ensures
            match uuid_parsed(s@) {
                Some(v) => r == Ok::<ProjectId, IdParseError>(ProjectId(v)),
                None => r == Err::<ProjectId, IdParseError>(IdParseError),
            },
            forall|v: u128| s@ == hyphenated(v) ==> r == Ok::<ProjectId, IdParseError>(ProjectId(v)),
    {
        match uuid_parse(s) {
            Some(v) => Ok(ProjectId(v)),
            None => Err(IdParseError),
        }
    }
}

impl std::str::FromStr for ProjectId {
    type Err = IdParseError;

    fn from_str(s: &str) -> Result<ProjectId, IdParseError> {
        ProjectId::parse(s)
    }
}

/// Identifies a template.
#[derive(Clone, Copy, Debug, PartialEq, Eq, Hash, Structural)]
pub struct TemplateId(pub u128);

impl TemplateId {
    /// A new time-ordered id.
    pub fn new() -> (r: TemplateId) {
        TemplateId(uuid_now_v7())
    }

    /// The all-zero id.
    pub fn nil() -> (r: TemplateId)
        ensures
            r.0 == 0,
    {
        TemplateId(0)
    }

    /// The hyphenated form of the id.
    pub fn to_string(&self) -> (r: String)
        ensures
            r@ == hyphenated(self.0),
    {
        uuid_text(self.0)
    }

    /// Reads an id in any form `uuid` accepts.
    pub fn parse(s: &str) -> (r: Result<TemplateId, IdParseError>)
        ensures
            match uuid_parsed(s@) {
                Some(v) => r == Ok::<TemplateId, IdParseError>(TemplateId(v)),
                None => r == Err::<TemplateId, IdParseError>(IdParseError),
            },
            forall|v: u128| s@ == hyphenated(v) ==> r == Ok::<TemplateId, IdParseError>(TemplateId(v)),
    {
        match uuid_parse(s) {
            Some(v) => Ok(TemplateId(v)),
            None => Err(IdParseError),
        }
    }
}

impl std::str::FromStr for TemplateId {
    type Err = IdParseError;

    fn from_str(s: &str) -> Result<TemplateId, IdParseError> {
        TemplateId::parse(s)
    }
}

/// Identifies a task.
#[derive(Clone, Copy, Debug, PartialEq, Eq, Hash, Structural)]
pub struct TaskId(pub u128);

impl TaskId {
    /// A new time-ordered id.
    pub fn new() -> (r: TaskId) {
        TaskId(uuid_now_v7())
    }

    /// The all-zero id.
    pub fn nil() -> (r: TaskId)
        ensures
            r.0 == 0,
    {
        TaskId(0)
    }

    /// The hyphenated form of the id.
    pub fn to_string(&self) -> (r: String)
        ensures
            r@ == hyphenated(self.0),
    {
        uuid_text(self.0)
    }

    /// Reads an id in any form `uuid` accepts.
    pub fn parse(s: &str) -> (r: Result<TaskId, IdParseError>)
        ensures
            match uuid_parsed(s@) {
                Some(v) => r == Ok::<TaskId, IdParseError>(TaskId(v)),
                None => r == Err::<TaskId, IdParseError>(IdParseError),
            },
            forall|v: u128| s@ == hyphenated(v) ==> r == Ok::<TaskId, IdParseError>(TaskId(v)),
    {
        match uuid_parse(s) {
            Some(v) => Ok(TaskId(v)),
            None => Err(IdParseError),
        }
    }
}

impl std::str::FromStr for TaskId {
    type Err = IdParseError;

    fn from_str(s: &str) -> Result<TaskId, IdParseError> {
        TaskId::parse(s)
    }
}

/// Identifies a run.
#[derive(Clone, Copy, Debug, PartialEq, Eq, Hash, Structural)]
pub struct RunId(pub u128);

impl RunId {
    /// A new time-ordered id.
    pub fn new() -> (r: RunId) {
        RunId(uuid_now_v7())
    }

    /// The all-zero id.
    pub fn nil() -> (r: RunId)
        ensures
            r.0 == 0,
    {
        RunId(0)
    }

    /// The hyphenated form of the id.
    pub fn to_string(&self) -> (r: String)
        ensures
            r@ == hyphenated(self.0),
    {
        uuid_text(self.0)
    }

    /// Reads an id in any form `uuid` accepts.
    pub fn parse(s: &str) -> (r: Result<RunId, IdParseError>)
        ensures
            match uuid_parsed(s@) {
                Some(v) => r == Ok::<RunId, IdParseError>(RunId(v)),
                None => r == Err::<RunId, IdParseError>(IdParseError),
            },
            forall|v: u128| s@ == hyphenated(v) ==> r == Ok::<RunId, IdParseError>(RunId(v)),
    {
        match uuid_parse(s) {
            Some(v) => Ok(RunId(v)),
            None => Err(IdParseError),
        }
    }
}

impl std::str::FromStr for RunId {
    type Err = IdParseError;

    fn from_str(s: &str) -> Result<RunId, IdParseError> {
        RunId::parse(s)
    }
}

/// Identifies an agent manifest by a short slug (`cursor-agent`).
#[derive(Clone, Debug, PartialEq, Eq, Hash)]
pub struct AgentId(pub String);

impl AgentId {
    pub fn new(s: &str) -> (r: AgentId)
        ensures
            r.0@ == s@,
    {
        AgentId(s.to_string())
    }

    pub fn as_str(&self) -> (r: &str)
        ensures
            r@ == self.0@,
    {
        self.0.as_str()
    }

    /// The slug itself.
    pub fn to_string(&self) -> (r: String)
        ensures
            r@ == self.0@,
    {
        self.0.clone()
    }
}

} // verus!
