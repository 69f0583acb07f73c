//! Domain entities: projects, the per-project run queue, runs, settings
//! and the parts of a template that hold no field values.

use vstd::prelude::*;
use crate::fields::Field;
use crate::ids::{AgentId, ProjectId, RunId, TaskId, TemplateId};
use crate::time::Timestamp;

verus! {

/// The schema version written into every stored entity.
pub const CURRENT_SCHEMA_VERSION: u32 = 1;

/// The schema version an entity stored without one is read as.
pub fn current_schema_version() -> (r: u32)
    ensures
        r == CURRENT_SCHEMA_VERSION,
{
    CURRENT_SCHEMA_VERSION
}

/// Per-project queue options.
#[derive(Clone, Copy, Debug, PartialEq, Eq, Structural)]
pub struct ProjectQueueConfig {
    pub fail_fast: Option<bool>,
}

impl ProjectQueueConfig {
    /// No option is set.
    pub fn is_empty(&self) -> (r: bool)
        ensures
            r == (self.fail_fast is None),
    {
        self.fail_fast.is_none()
    }
}

/// A project: a named directory that tasks run in.
#[derive(Clone, Debug)]
pub struct Project {
    pub schema_version: u32,
    pub id: ProjectId,
    pub name: String,
    pub description: String,
    pub path: String,
    pub created_at: Timestamp,
    pub updated_at: Timestamp,
    pub queue: ProjectQueueConfig,
    /// Free-form tags, by key.
    pub tags: Vec<(String, String)>,
}

impl Project {
    /// A new project with a fresh id, created and updated at `now`.
    pub fn new(name: &str, path: &str, now: Timestamp) -> (r: Project)
        ensures
            r.schema_version == CURRENT_SCHEMA_VERSION,
            r.name@ == name@,
            r.description@.len() == 0,
            r.path@ == path@,
            r.created_at == now,
            r.updated_at == now,
            r.queue.fail_fast is None,
            r.tags@.len() == 0,
    {
        Project {
            schema_version: CURRENT_SCHEMA_VERSION,
            id: ProjectId::new(),
            name: name.to_string(),
            description: String::new(),
            path: path.to_string(),
            created_at: now,
            updated_at: now,
            queue: ProjectQueueConfig { fail_fast: None },
            tags: Vec::new(),
        }
    }
}

/// One waiting task of a queue, with the agent that is to run it.
#[derive(Clone, Debug)]
pub struct QueueEntry {
    pub task_id: TaskId,
    pub agent_id: AgentId,
    pub enqueued_at: Timestamp,
}

/// The run queue of a project: entries run first in, first out.
#[derive(Clone, Debug)]
pub struct Queue {
    pub schema_version: u32,
    pub project_id: ProjectId,
    pub paused: bool,
    pub paused_reason: String,
    pub entries: Vec<QueueEntry>,
}

/// The entries after `e` joins at the back.
pub open spec fn queue_push(s: Seq<QueueEntry>, e: QueueEntry) -> Seq<QueueEntry> {
    s.push(e)
}

/// The front entry, if any, and the entries left behind it.
pub open spec fn queue_pop(s: Seq<QueueEntry>) -> (Option<QueueEntry>, Seq<QueueEntry>) {
    if s.len() == 0 {
        (None, s)
    } else {
        (Some(s[0]), s.drop_first())
    }
}

/// The entries in the order repeated pops hand them out.
pub open spec fn pop_order(s: Seq<QueueEntry>) -> Seq<QueueEntry>
    decreases s.len(),
{
    match queue_pop(s) {
        (Some(e), rest) => seq![e] + pop_order(rest),
        (None, _) => Seq::empty(),
    }
}

/// The entries after pushing `es` one by one.
pub open spec fn push_all(s: Seq<QueueEntry>, es: Seq<QueueEntry>) -> Seq<QueueEntry>
    decreases es.len(),
{
    if es.len() == 0 {
        s
    } else {
        queue_push(push_all(s, es.drop_last()), es.last())
    }
}

impl Queue {
    /// An empty, running queue of a project.
    pub fn empty(project_id: ProjectId) -> (r: Queue)
        ensures
            r.schema_version == CURRENT_SCHEMA_VERSION,
            r.project_id == project_id,
            !r.paused,
            r.paused_reason@.len() == 0,
            r.entries@.len() == 0,
    {
        Queue {
            schema_version: CURRENT_SCHEMA_VERSION,
            project_id,
            paused: false,
            paused_reason: String::new(),
            entries: Vec::new(),
        }
    }

    /// Adds an entry at the back.
    pub fn push_back(&mut self, entry: QueueEntry)
        ensures
            final(self).entries@ == queue_push(old(self).entries@, entry),
            final(self).project_id == old(self).project_id,
            final(self).paused == old(self).paused,
            final(self).paused_reason == old(self).paused_reason,
            final(self).schema_version == old(self).schema_version,
    {
        self.entries.push(entry);
    }

    /// Takes the entry at the front.
    pub fn pop_front(&mut self) -> (r: Option<QueueEntry>)
        ensures
            (r, final(self).entries@) == queue_pop(old(self).entries@),
            final(self).project_id == old(self).project_id,
            final(self).paused == old(self).paused,
            final(self).paused_reason == old(self).paused_reason,
            final(self).schema_version == old(self).schema_version,
    {
        if self.entries.len() == 0 {
            None
        } else {
            let e = self.entries.remove(0);
            proof {
                assert(self.entries@ =~= old(self).entries@.drop_first());
            }
            Some(e)
        }
    }
}

/// Pops hand entries out in the order they were pushed: after pushing
/// `es` onto a queue holding `s`, repeated pops give `s` then `es`.
pub proof fn lemma_queue_fifo(s: Seq<QueueEntry>, es: Seq<QueueEntry>)
    ensures
        pop_order(push_all(s, es)) == s + es,
    decreases es.len(),
{
    lemma_push_all(s, es);
    lemma_pop_order(s + es);
}

proof fn lemma_push_all(s: Seq<QueueEntry>, es: Seq<QueueEntry>)
    ensures
        push_all(s, es) == s + es,
    decreases es.len(),
{
    if es.len() > 0 {
        lemma_push_all(s, es.drop_last());
        assert(s + es.drop_last() + seq![es.last()] =~= s + es);
    } else {
        assert(s + es =~= s);
    }
}

proof fn lemma_pop_order(s: Seq<QueueEntry>)
    ensures
        pop_order(s) == s,
    decreases s.len(),
{
    if s.len() > 0 {
        lemma_pop_order(s.drop_first());
        assert(seq![s[0]] + s.drop_first() =~= s);
    }
}

/// A single push onto an empty queue is undone by a single pop.
pub proof fn lemma_queue_push_pop(e: QueueEntry)
    ensures
        queue_pop(queue_push(Seq::empty(), e)) == (Some(e), Seq::<QueueEntry>::empty()),
{
    assert(queue_push(Seq::empty(), e).drop_first() =~= Seq::<QueueEntry>::empty());
}

/// Where a task, or a run of it, is in its life.
#[derive(Clone, Copy, Debug, PartialEq, Eq, Structural)]
pub enum TaskStatus {
    Draft,
    Queued,
    Running,
    Succeeded,
    Failed,
    Killed,
    Interrupted,
}

/// The name of a status, as `{:?}` writes it.
pub open spec fn status_name(s: TaskStatus) -> Seq<char> {
    match s {
        TaskStatus::Draft => "Draft"@,
        TaskStatus::Queued => "Queued"@,
        TaskStatus::Running => "Running"@,
        TaskStatus::Succeeded => "Succeeded"@,
        TaskStatus::Failed => "Failed"@,
        TaskStatus::Killed => "Killed"@,
        TaskStatus::Interrupted => "Interrupted"@,
    }
}

impl TaskStatus {
    /// The name of the status.
    pub fn name(self) -> (r: &'static str)
        ensures
            r@ == status_name(self),
    {
        match self {
            TaskStatus::Draft => "Draft",
            TaskStatus::Queued => "Queued",
            TaskStatus::Running => "Running",
            TaskStatus::Succeeded => "Succeeded",
            TaskStatus::Failed => "Failed",
            TaskStatus::Killed => "Killed",
            TaskStatus::Interrupted => "Interrupted",
        }
    }
}

/// Runs share the vocabulary of tasks.
pub type RunStatus = TaskStatus;

/// Log-size accounting of a run.
#[derive(Clone, Copy, Debug, PartialEq, Eq, Structural)]
pub struct RunLogInfo {
    pub stdout_bytes: u64,
    pub stderr_bytes: u64,
    pub truncated: bool,
}

/// One run of a task by an agent.
#[derive(Clone, Debug)]
pub struct Run {
    pub schema_version: u32,
    pub id: RunId,
    pub project_id: ProjectId,
    pub task_id: TaskId,
    pub agent_id: AgentId,
    pub agent_version: String,
    pub status: RunStatus,
    pub queued_at: Timestamp,
    pub started_at: Option<Timestamp>,
    pub finished_at: Option<Timestamp>,
    pub pid: Option<u32>,
    pub log: RunLogInfo,
}

impl Run {
    /// A new queued run with a fresh id.
    pub fn new(project_id: ProjectId, task_id: TaskId, agent_id: AgentId, queued_at: Timestamp) -> (r:
        Run)
        ensures
            r.schema_version == CURRENT_SCHEMA_VERSION,
            r.project_id == project_id,
            r.task_id == task_id,
            r.agent_id == agent_id,
            r.agent_version@.len() == 0,
            r.status == TaskStatus::Queued,
            r.queued_at == queued_at,
            r.started_at is None,
            r.finished_at is None,
            r.pid is None,
            r.log == (RunLogInfo { stdout_bytes: 0, stderr_bytes: 0, truncated: false }),
    {
        Run {
            schema_version: CURRENT_SCHEMA_VERSION,
            id: RunId::new(),
            project_id,
            task_id,
            agent_id,
            agent_version: String::new(),
            status: TaskStatus::Queued,
            queued_at,
            started_at: None,
            finished_at: None,
            pid: None,
            log: RunLogInfo { stdout_bytes: 0, stderr_bytes: 0, truncated: false },
        }
    }
}

/// How a run ended.
#[derive(Clone, Debug)]
pub struct RunExit {
    pub exit_code: Option<i32>,
    pub signal: Option<String>,
    pub finished_at: Option<Timestamp>,
    pub duration_ms: Option<u64>,
}

/// Cache bounds.
#[derive(Clone, Copy, Debug, PartialEq, Eq, Structural)]
pub struct CacheSettings {
    pub max_entries: usize,
    pub max_bytes: u64,
}

impl Default for CacheSettings {
    fn default() -> (r: CacheSettings)
        ensures
            r.max_entries == 4096,
            r.max_bytes == 67_108_864,
    {
        CacheSettings { max_entries: 4096, max_bytes: 67_108_864 }
    }
}

/// Logging options.
#[derive(Clone, Debug, PartialEq, Eq)]
pub struct LoggingSettings {
    pub level: String,
}

impl Default for LoggingSettings {
    fn default() -> (r: LoggingSettings)
        ensures
            r.level@ == "info"@,
    {
        LoggingSettings { level: "info".to_string() }
    }
}

/// Application-wide preferences.
#[derive(Clone, Debug, PartialEq, Eq)]
pub struct Settings {
    pub schema_version: u32,
    pub cache: CacheSettings,
    pub logging: LoggingSettings,
}

impl Default for Settings {
    fn default() -> (r: Settings)
        ensures
            r.schema_version == CURRENT_SCHEMA_VERSION,
            r.cache == (CacheSettings { max_entries: 4096, max_bytes: 67_108_864 }),
            r.logging.level@ == "info"@,
    {
        Settings {
            schema_version: CURRENT_SCHEMA_VERSION,
            cache: CacheSettings::default(),
            logging: LoggingSettings::default(),
        }
    }
}

/// The markdown a template's prompt starts with.
#[derive(Clone, Debug, PartialEq, Eq)]
pub struct Preamble {
    pub markdown: String,
}

/// A titled group of fields, for display.
#[derive(Clone, Debug, PartialEq, Eq)]
pub struct FieldGroup {
    pub title: String,
    pub help: Option<String>,
    pub fields: Vec<String>,
}

/// The prompt body of a template; none means the canonical skeleton.
#[derive(Clone, Debug, PartialEq, Eq)]
pub struct PromptSpec {
    pub template: Option<String>,
}

/// The version a template starts at.
pub fn default_template_version() -> (r: u32)
    ensures
        r == 1,
{
    1
}

/// A filled-in or default field value: its JSON text, and the string
/// itself when the value is a JSON string. The JSON text of null is
/// `null`.
#[derive(Clone, Debug, PartialEq, Eq)]
pub struct FieldValue {
    pub json: String,
    pub text: Option<String>,
}

/// A template: its identity, its fields and its prompt body.
#[derive(Clone, Debug)]
pub struct Template {
    pub schema_version: u32,
    pub id: TemplateId,
    pub name: String,
    pub description: String,
    /// Bumped on every content-changing save.
    pub version: u32,
    pub tags: Vec<String>,
    pub created_at: Timestamp,
    pub updated_at: Timestamp,
    pub preamble: Preamble,
    /// Derived-value declarations by name, each as its JSON text.
    pub derived: Vec<(String, String)>,
    pub fields: Vec<Field>,
    /// The `[[fields]]` TOML text of `fields`, as the store writes it.
    pub fields_toml: String,
    pub groups: Vec<FieldGroup>,
    pub prompt: PromptSpec,
}

impl Template {
    /// A new, empty template at version 1 with a fresh id.
    pub fn new(name: &str, now: Timestamp) -> (r: Template)
        ensures
            r.schema_version == CURRENT_SCHEMA_VERSION,
            r.name@ == name@,
            r.description@.len() == 0,
            r.version == 1,
            r.tags@.len() == 0,
            r.created_at == now,
            r.updated_at == now,
            r.preamble.markdown@.len() == 0,
            r.derived@.len() == 0,
            r.fields@.len() == 0,
            r.fields_toml@.len() == 0,
            r.groups@.len() == 0,
            r.prompt.template is None,
    {
        Template {
            schema_version: CURRENT_SCHEMA_VERSION,
            id: TemplateId::new(),
            name: name.to_string(),
            description: String::new(),
            version: 1,
            tags: Vec::new(),
            created_at: now,
            updated_at: now,
            preamble: Preamble { markdown: String::new() },
            derived: Vec::new(),
            fields: Vec::new(),
            fields_toml: String::new(),
            groups: Vec::new(),
            prompt: PromptSpec { template: None },
        }
    }
}

/// A task: a template's fields filled in.
#[derive(Clone, Debug)]
pub struct Task {
    pub schema_version: u32,
    pub id: TaskId,
    pub template_id: TemplateId,
    pub template_version: u32,
    pub name: String,
    pub created_at: Timestamp,
    /// Field id and value, in the order of the ids.
    pub fields: Vec<(String, FieldValue)>,
    /// Derived values captured when the task was made, by name.
    pub derived: Vec<(String, FieldValue)>,
}

impl Task {
    /// A new task of a template version, with no values and a fresh id.
    pub fn new(template_id: TemplateId, template_version: u32, name: &str, now: Timestamp) -> (r:
        Task)
        ensures
            r.schema_version == CURRENT_SCHEMA_VERSION,
            r.template_id == template_id,
            r.template_version == template_version,
            r.name@ == name@,
            r.created_at == now,
            r.fields@.len() == 0,
            r.derived@.len() == 0,
    {
        Task {
            schema_version: CURRENT_SCHEMA_VERSION,
            id: TaskId::new(),
            template_id,
            template_version,
            name: name.to_string(),
            created_at: now,
            fields: Vec::new(),
            derived: Vec::new(),
        }
    }
}

} // verus!
