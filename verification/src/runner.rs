//! The decisions of spawning an agent: its argv with the placeholders
//! filled in, where it runs, and how its exit becomes a report.

use vstd::prelude::*;
use crate::agents::{AgentManifest, WorkingDir};
use crate::entities::TaskStatus;
use crate::ids::{RunId, hyphenated};
use crate::num::{dec_signed, fmt_i64};
use crate::text::{append, chars_of, replace, replace_exec, string_of};

verus! {

/// Everything needed to spawn one agent instance.
#[derive(Clone, Debug)]
pub struct SpawnSpec {
    pub run_id: RunId,
    pub manifest: AgentManifest,
    /// The target project's directory.
    pub project_root: String,
    /// The rendered prompt.
    pub prompt: String,
    pub stdout_path: String,
    pub stderr_path: String,
    /// Where the prompt is written in `File` mode.
    pub prompt_file_path: String,
    /// Environment laid over the manifest's.
    pub extra_env: Vec<(String, String)>,
}

/// Which stream a log line came from.
#[derive(Clone, Copy, Debug, PartialEq, Eq, Structural)]
pub enum LogStream {
    Stdout,
    Stderr,
}

/// One line of agent output.
#[derive(Clone, Debug, PartialEq, Eq)]
pub struct LogLine {
    pub stream: LogStream,
    pub text: String,
}

/// How a spawned agent ended.
#[derive(Clone, Debug, PartialEq, Eq)]
pub struct ExitReport {
    pub status: TaskStatus,
    pub exit_code: Option<i32>,
    pub signal: Option<String>,
    pub duration_ms: u64,
}

/// Spawns agents; it holds no state.
#[derive(Clone, Copy, Debug)]
pub struct AgentRunner;

impl AgentRunner {
    pub fn new() -> (r: AgentRunner) {
        AgentRunner
    }
}

/// `raw` with `{prompt}`, then `{prompt_file}`, then `{project}`, then
/// `{run_id}` replaced, in that order.
pub open spec fn substituted(raw: Seq<char>, spec: SpawnSpec) -> Seq<char> {
    replace(
        replace(
            replace(replace(raw, "{prompt}"@, spec.prompt@), "{prompt_file}"@, spec.prompt_file_path@),
            "{project}"@,
            spec.project_root@,
        ),
        "{run_id}"@,
        hyphenated(spec.run_id.0),
    )
}

/// Fills the placeholders of one argument.
pub fn substitute_placeholders(raw: &str, spec: &SpawnSpec) -> (r: String)
    ensures
        r@ == substituted(raw@, *spec),
{
    proof {
        reveal_strlit("{prompt}");
        reveal_strlit("{prompt_file}");
        reveal_strlit("{project}");
        reveal_strlit("{run_id}");
    }
    let a = replace_exec(&chars_of(raw), &chars_of("{prompt}"), &chars_of(spec.prompt.as_str()));
    let b = replace_exec(&a, &chars_of("{prompt_file}"), &chars_of(spec.prompt_file_path.as_str()));
    let c = replace_exec(&b, &chars_of("{project}"), &chars_of(spec.project_root.as_str()));
    let d = replace_exec(&c, &chars_of("{run_id}"), &chars_of(spec.run_id.to_string().as_str()));
    string_of(&d)
}

/// The argv of a spawn: the binary, then each invocation argument with
/// its placeholders filled.
pub fn build_argv(spec: &SpawnSpec) -> (r: Vec<String>)
    ensures
        r@.len() == spec.manifest.invocation.args@.len() + 1,
        r@[0]@ == spec.manifest.binary@,
        forall|i: int|
            0 <= i < spec.manifest.invocation.args@.len() ==> #[trigger] r@[i + 1]@ == substituted(
                spec.manifest.invocation.args@[i]@,
                *spec,
            ),
{
    let mut argv: Vec<String> = Vec::new();
    argv.push(spec.manifest.binary.clone());
    let args = &spec.manifest.invocation.args;
    let mut i: usize = 0;
    while i < args.len()
        invariant
            i <= args.len(),
            args == &spec.manifest.invocation.args,
            argv@.len() == i + 1,
            argv@[0]@ == spec.manifest.binary@,
            forall|j: int| 0 <= j < i ==> #[trigger] argv@[j + 1]@ == substituted(args@[j]@, *spec),
        decreases args.len() - i,
    {
        argv.push(substitute_placeholders(args[i].as_str(), spec));
        i = i + 1;
    }
    argv
}

/// Where the agent runs: the project, or the manifest's fixed directory.
pub fn resolve_working_dir(manifest: &AgentManifest, project_root: &str) -> (r: String)
    ensures
        r@ == match manifest.runtime.working_dir {
            WorkingDir::Project => project_root@,
            WorkingDir::Custom { path } => path@,
        },
{
    match &manifest.runtime.working_dir {
        WorkingDir::Project => project_root.to_string(),
        WorkingDir::Custom { path } => path.clone(),
    }
}

/// A process's exit status as plain values.
#[derive(Clone, Copy, Debug, PartialEq, Eq, Structural)]
pub struct ExitInfo {
    pub code: Option<i32>,
    /// The signal that ended it, on Unix.
    pub signal: Option<i32>,
    pub success: bool,
}

/// `signal:<n>` for a signal.
pub open spec fn signal_text(sig: Option<i32>) -> Option<Seq<char>> {
    match sig {
        Some(s) => Some("signal:"@ + dec_signed(s as int)),
        None => None,
    }
}

/// The name of the signal that ended a process.
pub fn signal_name(sig: Option<i32>) -> (r: Option<String>)
    ensures
        match r {
            Some(t) => signal_text(sig) == Some(t@),
            None => sig is None,
        },
{
    match sig {
        Some(s) => {
            let mut v = chars_of("signal:");
            append(&mut v, &fmt_i64(s as i64));
            Some(string_of(&v))
        },
        None => None,
    }
}

/// The report of a finished wait: the given status for success or
/// failure, the code and signal; a failed wait counts as a failure.
pub fn finalize_from_wait(
    res: &Result<ExitInfo, String>,
    duration_ms: u64,
    on_success: TaskStatus,
    on_failure: TaskStatus,
) -> (r: ExitReport)
    ensures
        r.duration_ms == duration_ms,
        match res {
            Ok(info) => r.status == (if info.success {
                on_success
            } else {
                on_failure
            }) && r.exit_code == info.code && match r.signal {
                Some(t) => signal_text(info.signal) == Some(t@),
                None => info.signal is None,
            },
            Err(_) => r.status == TaskStatus::Failed && r.exit_code is None && r.signal is None,
        },
{
    match res {
        Ok(info) => ExitReport {
            status: if info.success {
                on_success
            } else {
                on_failure
            },
            exit_code: info.code,
            signal: signal_name(info.signal),
            duration_ms,
        },
        Err(_) => ExitReport {
            status: TaskStatus::Failed,
            exit_code: None,
            signal: None,
            duration_ms,
        },
    }
}

/// Milliseconds as a `u64`, saturating.
pub fn elapsed_ms(millis: u128) -> (r: u64)
    ensures
        r == if millis > u64::MAX {
            u64::MAX as int
        } else {
            millis as int
        },
{
    if millis > u64::MAX as u128 {
        u64::MAX
    } else {
        millis as u64
    }
}

} // verus!
