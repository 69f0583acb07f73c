//! The decisions of the per-project run queue. A worker takes the head
//! of its project's queue, runs it, pops it, and reports; with
//! fail-fast, a run that does not succeed interrupts the rest of the
//! queue and pauses it. Running agents and storing state are left to
//! the caller, which feeds the outcomes back.

use vstd::prelude::*;
use crate::agents::{AgentError, AgentRegistry, AvailableAgent, key};
use crate::entities::{Queue, QueueEntry, TaskStatus, queue_pop, queue_push, status_name};
use crate::ids::{AgentId, ProjectId, RunId, TaskId, hyphenated};
use crate::text::{append, chars_of, has_prefix, starts_with, string_of};

verus! {

/// A request to queue a task for an agent.
#[derive(Clone, Debug)]
pub struct EnqueueRequest {
    pub project_id: ProjectId,
    pub project_path: String,
    pub task_id: TaskId,
    pub agent_id: AgentId,
}

/// What the queue reports as runs progress.
#[derive(Clone, Debug, PartialEq, Eq)]
pub enum QueueEvent {
    Enqueued { project: ProjectId, task: TaskId },
    Started { project: ProjectId, task: TaskId, run: RunId },
    Finished { project: ProjectId, task: TaskId, run: RunId, status: TaskStatus },
    Interrupted { project: ProjectId, task: TaskId, reason: String },
    Drained { project: ProjectId },
    Paused { project: ProjectId, reason: String },
    Resumed { project: ProjectId },
}

/// Queue options.
#[derive(Clone, Copy, Debug, PartialEq, Eq, Structural)]
pub struct QueueConfig {
    /// Agents running at once, over all projects; 0 means no limit.
    pub max_concurrent: usize,
    /// Whether a run that does not succeed stops its project's queue.
    pub fail_fast: bool,
}

impl Default for QueueConfig {
    fn default() -> (r: QueueConfig)
        ensures
            r.max_concurrent == 0,
            !r.fail_fast,
    {
        QueueConfig { max_concurrent: 0, fail_fast: false }
    }
}

/// The permits of the global semaphore: the cap, or 1024 for "no limit".
pub fn permits(cfg: &QueueConfig) -> (r: usize)
    ensures
        r == if cfg.max_concurrent == 0 {
            1024
        } else {
            cfg.max_concurrent as int
        },
        r > 0,
{
    if cfg.max_concurrent == 0 {
        1024
    } else {
        cfg.max_concurrent
    }
}

/// How running one entry ended.
#[derive(Clone, Debug, PartialEq, Eq)]
pub enum RunOutcome {
    /// The agent ran; its run and final status.
    Completed { run: RunId, status: TaskStatus },
    /// It could not be started; why.
    Aborted { reason: String },
}

impl RunOutcome {
    pub fn aborted(reason: String) -> (r: RunOutcome)
        ensures
            r matches RunOutcome::Aborted { reason: t } && t@ == reason@,
    {
        RunOutcome::Aborted { reason }
    }
}

fn msg3(a: &str, b: &Vec<char>, c: &str) -> (r: String)
    ensures
        r@ == a@ + b@ + c@,
{
    let mut v = chars_of(a);
    append(&mut v, b);
    append(&mut v, &chars_of(c));
    string_of(&v)
}

/// Why a request cannot be queued.
pub enum EnqueueProblem {
    Invocation(Seq<char>),
    NotInstalled(Seq<char>),
}

/// Why a request cannot be queued: the task is unknown or belongs to
/// another project, or the agent is unknown or not installed.
pub open spec fn enqueue_problem(
    req: EnqueueRequest,
    task_project: Option<ProjectId>,
    agent: Option<AvailableAgent>,
) -> Option<EnqueueProblem> {
    match task_project {
        None => Some(
            EnqueueProblem::Invocation("task "@ + hyphenated(req.task_id.0) + " not found"@),
        ),
        Some(p) => if p != req.project_id {
            Some(EnqueueProblem::Invocation("task.project_id does not match request.project_id"@))
        } else {
            match agent {
                None => Some(
                    EnqueueProblem::Invocation("unknown agent `"@ + req.agent_id.0@ + "`"@),
                ),
                Some(a) => if !a.installed {
                    Some(EnqueueProblem::NotInstalled(req.agent_id.0@))
                } else {
                    None
                },
            }
        },
    }
}

/// A request is accepted exactly when its task is found in the requested
/// project and its agent is known and installed; a known agent that is
/// not installed is reported as such, and every other refusal is a bad
/// invocation.
pub proof fn lemma_enqueue_accepted(
    req: EnqueueRequest,
    task_project: Option<ProjectId>,
    agent: Option<AvailableAgent>,
)
    ensures
        enqueue_problem(req, task_project, agent) is None <==> (task_project == Some(
            req.project_id,
        ) && agent is Some && agent->0.installed),
        (task_project == Some(req.project_id) && agent is Some && !agent->0.installed)
            ==> enqueue_problem(req, task_project, agent) == Some(
            EnqueueProblem::NotInstalled(req.agent_id.0@),
        ),
        !(task_project == Some(req.project_id) && agent is Some) ==> enqueue_problem(
            req,
            task_project,
            agent,
        ) matches Some(EnqueueProblem::Invocation(_)),
{
}

/// Checks a request against the task's project (none when the task is
/// not found) and the registry's entry for the agent.
pub fn check_enqueue(
    req: &EnqueueRequest,
    task_project: Option<ProjectId>,
    agent: Option<&AvailableAgent>,
) -> (r: Result<(), AgentError>)
    ensures
        ({
            let a = match agent {
                Some(x) => Some(*x),
                None => None,
            };
            match enqueue_problem(*req, task_project, a) {
                None => r is Ok,
                Some(EnqueueProblem::NotInstalled(w)) => r matches Err(AgentError::NotInstalled(m))
                    && m@ == w,
                Some(EnqueueProblem::Invocation(w)) => r matches Err(AgentError::Invocation(m))
                    && m@ == w,
            }
        }),
{
    match task_project {
        None => {
            let id = chars_of(req.task_id.to_string().as_str());
            Err(AgentError::Invocation(msg3("task ", &id, " not found")))
        },
        Some(p) => {
            if p != req.project_id {
                return Err(
                    AgentError::Invocation(
                        "task.project_id does not match request.project_id".to_string(),
                    ),
                );
            }
            match agent {
                None => {
                    let id = chars_of(req.agent_id.as_str());
                    Err(AgentError::Invocation(msg3("unknown agent `", &id, "`")))
                },
                Some(a) => {
                    if !a.installed {
                        Err(AgentError::NotInstalled(req.agent_id.0.clone()))
                    } else {
                        Ok(())
                    }
                },
            }
        },
    }
}

/// A queue paused by fail-fast.
pub open spec fn fail_fast_paused(q: Queue) -> bool {
    q.paused && has_prefix(q.paused_reason@, "fail-fast:"@)
}

/// Adds an entry to a project's queue. A queue that fail-fast paused
/// runs again: a new entry is the operator's go-ahead.
pub fn prepare_enqueue(queue: &mut Queue, entry: QueueEntry)
    ensures
        final(queue).entries@ == queue_push(old(queue).entries@, entry),
        fail_fast_paused(*old(queue)) ==> !final(queue).paused
            && final(queue).paused_reason@.len() == 0,
        !fail_fast_paused(*old(queue)) ==> final(queue).paused == old(queue).paused
            && final(queue).paused_reason == old(queue).paused_reason,
        final(queue).project_id == old(queue).project_id,
{
    if queue.paused && starts_with(&chars_of(queue.paused_reason.as_str()), &chars_of("fail-fast:")) {
        queue.paused = false;
        queue.paused_reason = String::new();
    }
    queue.push_back(entry);
}

/// What a woken worker does next.
#[derive(Clone, Debug)]
pub enum WorkerStep {
    /// Nothing to read; go back to sleep.
    Sleep,
    /// The queue is paused or empty: report it drained and sleep.
    Drained,
    /// Run this entry, the head of the queue.
    Run(QueueEntry),
}

fn clone_entry(e: &QueueEntry) -> (r: QueueEntry)
    ensures
        r.task_id == e.task_id,
        r.agent_id.0@ == e.agent_id.0@,
        r.enqueued_at == e.enqueued_at,
{
    QueueEntry {
        task_id: e.task_id,
        agent_id: AgentId(e.agent_id.0.clone()),
        enqueued_at: e.enqueued_at,
    }
}

/// The next step of a worker given its project's queue (none when it
/// could not be read): the head entry first, so entries run in the order
/// they were queued.
pub fn next_step(queue: Option<&Queue>) -> (r: WorkerStep)
    ensures
        match queue {
            None => r is Sleep,
            Some(q) => if q.paused || q.entries@.len() == 0 {
                r is Drained
            } else {
                r matches WorkerStep::Run(e) && e.task_id == q.entries@[0].task_id
                    && e.agent_id.0@ == q.entries@[0].agent_id.0@ && e.enqueued_at
                    == q.entries@[0].enqueued_at
            },
        },
{
    match queue {
        None => WorkerStep::Sleep,
        Some(q) => {
            if q.paused || q.entries.len() == 0 {
                WorkerStep::Drained
            } else {
                WorkerStep::Run(clone_entry(&q.entries[0]))
            }
        },
    }
}

/// Whether an outcome stops a fail-fast queue: anything but success.
pub open spec fn is_failure(o: RunOutcome) -> bool {
    match o {
        RunOutcome::Completed { status, .. } => status != TaskStatus::Succeeded,
        RunOutcome::Aborted { .. } => true,
    }
}

/// The reason a fail-fast stop gives.
pub open spec fn failure_reason(o: RunOutcome) -> Seq<char> {
    match o {
        RunOutcome::Completed { status, .. } => "task ended in "@ + status_name(status),
        RunOutcome::Aborted { reason } => reason@,
    }
}

/// The checks before running an entry: the agent must be known and
/// installed. The reason of the abort otherwise.
pub open spec fn entry_agent_problem(entry: QueueEntry, agent: Option<AvailableAgent>) -> Option<
    Seq<char>,
> {
    match agent {
        Some(a) => if a.installed {
            None
        } else {
            Some("agent "@ + entry.agent_id.0@ + " not installed"@)
        },
        None => Some("unknown agent "@ + entry.agent_id.0@),
    }
}

/// The agent that is to run an entry, or why the entry is aborted.
pub fn agent_for_entry<'a>(registry: &'a AgentRegistry, entry: &QueueEntry) -> (r: Result<
    &'a AvailableAgent,
    RunOutcome,
>)
    ensures
        match r {
            Ok(a) => registry.entries().contains(*a) && key(*a) == entry.agent_id.0@
                && a.installed,
            Err(RunOutcome::Aborted { reason }) => (exists|i: int|
                0 <= i < registry.entries().len() && key(registry.entries()[i])
                    == entry.agent_id.0@ && !registry.entries()[i].installed && reason@ == (
                "agent "@ + entry.agent_id.0@ + " not installed"@)) || ((forall|i: int|
                0 <= i < registry.entries().len() ==> key(registry.entries()[i])
                    != entry.agent_id.0@) && reason@ == "unknown agent "@ + entry.agent_id.0@),
            Err(_) => false,
        },
{
    match registry.get(&entry.agent_id) {
        Some(a) => {
            if a.installed {
                Ok(a)
            } else {
                let id = chars_of(entry.agent_id.as_str());
                let r = RunOutcome::Aborted { reason: msg3("agent ", &id, " not installed") };
                proof {
                    let i = choose|i: int|
                        0 <= i < registry.entries().len() && registry.entries()[i] == *a;
                    assert(key(registry.entries()[i]) == entry.agent_id.0@);
                }
                Err(r)
            }
        },
        None => {
            let id = chars_of(entry.agent_id.as_str());
            let mut v = chars_of("unknown agent ");
            append(&mut v, &id);
            Err(RunOutcome::Aborted { reason: string_of(&v) })
        },
    }
}

/// The event that reports how the head entry ended.
pub open spec fn terminal_event(project: ProjectId, task: TaskId, o: RunOutcome, e: QueueEvent) -> bool {
    match o {
        RunOutcome::Completed { run, status } => e == QueueEvent::Finished {
            project,
            task,
            run,
            status,
        },
        RunOutcome::Aborted { reason } => e matches QueueEvent::Interrupted {
            project: p,
            task: t,
            reason: r,
        } && p == project && t == task && r@ == reason@,
    }
}

fn failure_reason_exec(o: &RunOutcome) -> (r: String)
    ensures
        r@ == failure_reason(*o),
{
    match o {
        RunOutcome::Completed { status, .. } => {
            let mut v = chars_of("task ended in ");
            append(&mut v, &chars_of(status.name()));
            string_of(&v)
        },
        RunOutcome::Aborted { reason } => reason.clone(),
    }
}

/// After the head entry of `project`'s queue ran: pops it and reports
/// how it ended. With fail-fast, an outcome other than success also
/// interrupts every remaining entry, in order, empties the queue and
/// pauses it with the reason `fail-fast: <reason>`. The result is the
/// events and whether the worker stops.
pub fn finish_head(queue: &mut Queue, task: TaskId, outcome: &RunOutcome, fail_fast: bool) -> (r: (
    Vec<QueueEvent>,
    bool,
))
    ensures
        r.0@.len() >= 1,
        terminal_event(old(queue).project_id, task, *outcome, r.0@[0]),
        final(queue).project_id == old(queue).project_id,
        r.1 == (fail_fast && is_failure(*outcome)),
        !r.1 ==> final(queue).entries@ == queue_pop(old(queue).entries@).1 && r.0@.len() == 1
            && final(queue).paused == old(queue).paused && final(queue).paused_reason
            == old(queue).paused_reason,
        r.1 ==> ({
            let rest = queue_pop(old(queue).entries@).1;
            &&& final(queue).entries@.len() == 0
            &&& final(queue).paused
            &&& final(queue).paused_reason@ == "fail-fast: "@ + failure_reason(*outcome)
            &&& r.0@.len() == rest.len() + 1
            &&& forall|i: int|
                0 <= i < rest.len() ==> (#[trigger] r.0@[i + 1] matches QueueEvent::Interrupted {
                    project: p,
                    task: t,
                    reason: why,
                } && p == old(queue).project_id && t == rest[i].task_id && why@ == failure_reason(
                    *outcome,
                ))
        }),
{
    let project = queue.project_id;
    let _ = queue.pop_front();
    let mut events: Vec<QueueEvent> = Vec::new();
    match outcome {
        RunOutcome::Completed { run, status } => {
            events.push(QueueEvent::Finished { project, task, run: *run, status: *status });
        },
        RunOutcome::Aborted { reason } => {
            events.push(QueueEvent::Interrupted { project, task, reason: reason.clone() });
        },
    }
    let failed = match outcome {
        RunOutcome::Completed { status, .. } => *status != TaskStatus::Succeeded,
        RunOutcome::Aborted { .. } => true,
    };
    if !(failed && fail_fast) {
        return (events, false);
    }
    let reason = failure_reason_exec(outcome);
    let ghost rest = queue.entries@;
    let mut i: usize = 0;
    while i < queue.entries.len()
        invariant
            i <= queue.entries.len(),
            queue.entries@ == rest,
            queue.project_id == project,
            events@.len() == i + 1,
            terminal_event(project, task, *outcome, events@[0]),
            forall|j: int|
                0 <= j < i ==> (#[trigger] events@[j + 1] matches QueueEvent::Interrupted {
                    project: p,
                    task: t,
                    reason: why,
                } && p == project && t == rest[j].task_id && why@ == reason@),
        decreases queue.entries.len() - i,
    {
        events.push(
            QueueEvent::Interrupted {
                project,
                task: queue.entries[i].task_id,
                reason: reason.clone(),
            },
        );
        i = i + 1;
    }
    queue.entries = Vec::new();
    queue.paused = true;
    let mut pr = chars_of("fail-fast: ");
    append(&mut pr, &chars_of(reason.as_str()));
    queue.paused_reason = string_of(&pr);
    (events, true)
}

} // verus!
