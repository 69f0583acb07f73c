use lattice::agents::{AgentManifest, AgentRegistry, DetectSpec, Detection, InvocationMode, InvocationSpec, RuntimeSpec, WorkingDir};
use lattice::dispatch::{
    agent_for_entry, check_enqueue, finish_head, next_step, permits, prepare_enqueue,
    EnqueueRequest, QueueConfig, QueueEvent, RunOutcome, WorkerStep,
};
use lattice::entities::{Queue, QueueEntry, TaskStatus};
use lattice::ids::{AgentId, ProjectId, RunId, TaskId};
use lattice::runner::{
    build_argv, elapsed_ms, finalize_from_wait, resolve_working_dir, substitute_placeholders,
    ExitInfo, SpawnSpec,
};
use lattice::time::Timestamp;

fn spec() -> SpawnSpec {
    SpawnSpec {
        run_id: RunId(0x67e5504410b1426f9247bb680e5fe0c8),
        manifest: AgentManifest {
            id: AgentId::new("a"),
            display_name: "A".into(),
            binary: "agent".into(),
            detect: DetectSpec::default(),
            invocation: InvocationSpec {
                mode: InvocationMode::Arg,
                args: vec!["-p".into(), "{prompt}".into(), "--in={project}/{run_id}".into()],
            },
            runtime: RuntimeSpec::default(),
            env: vec![],
        },
        project_root: "/p".into(),
        prompt: "do {project}".into(),
        stdout_path: "/o".into(),
        stderr_path: "/e".into(),
        prompt_file_path: "/f".into(),
        extra_env: vec![],
    }
}

#[test]
fn argv_fills_placeholders_in_order() {
    let s = spec();
    assert_eq!(
        build_argv(&s),
        vec!["agent", "-p", "do /p", "--in=/p/67e55044-10b1-426f-9247-bb680e5fe0c8"]
    );
    assert_eq!(substitute_placeholders("{prompt_file}", &s), "/f");
}

#[test]
fn working_dir_and_exit_reports() {
    let mut s = spec();
    assert_eq!(resolve_working_dir(&s.manifest, "/proj"), "/proj");
    s.manifest.runtime.working_dir = WorkingDir::Custom { path: "/opt/pinned".into() };
    assert_eq!(resolve_working_dir(&s.manifest, "/proj"), "/opt/pinned");
    let ok = finalize_from_wait(
        &Ok(ExitInfo { code: Some(0), signal: None, success: true }),
        7,
        TaskStatus::Succeeded,
        TaskStatus::Failed,
    );
    assert_eq!(ok.status, TaskStatus::Succeeded);
    assert_eq!(ok.duration_ms, 7);
    let sig = finalize_from_wait(
        &Ok(ExitInfo { code: None, signal: Some(15), success: false }),
        1,
        TaskStatus::Succeeded,
        TaskStatus::Failed,
    );
    assert_eq!(sig.status, TaskStatus::Failed);
    assert_eq!(sig.signal.as_deref(), Some("signal:15"));
    let err = finalize_from_wait(&Err("io".into()), 2, TaskStatus::Succeeded, TaskStatus::Killed);
    assert_eq!(err.status, TaskStatus::Failed);
    assert_eq!(elapsed_ms(u128::MAX), u64::MAX);
    assert_eq!(elapsed_ms(12), 12);
}

fn entry(t: TaskId) -> QueueEntry {
    QueueEntry {
        task_id: t,
        agent_id: AgentId::new("a"),
        enqueued_at: Timestamp::parse("2026-01-01T00:00:00Z").unwrap(),
    }
}

#[test]
fn fail_fast_interrupts_the_rest_and_enqueue_resumes() {
    let p = ProjectId::nil();
    let (t1, t2, t3) = (TaskId(1), TaskId(2), TaskId(3));
    let mut q = Queue::empty(p);
    for t in [t1, t2, t3] {
        prepare_enqueue(&mut q, entry(t));
    }
    match next_step(Some(&q)) {
        WorkerStep::Run(e) => assert_eq!(e.task_id, t1),
        _ => panic!("expected run"),
    }
    let out = RunOutcome::Completed { run: RunId(9), status: TaskStatus::Failed };
    let (events, stop) = finish_head(&mut q, t1, &out, true);
    assert!(stop);
    assert_eq!(events.len(), 3);
    assert_eq!(events[0], QueueEvent::Finished { project: p, task: t1, run: RunId(9), status: TaskStatus::Failed });
    assert_eq!(
        events[2],
        QueueEvent::Interrupted { project: p, task: t3, reason: "task ended in Failed".into() }
    );
    assert!(q.entries.is_empty());
    assert!(q.paused);
    assert_eq!(q.paused_reason, "fail-fast: task ended in Failed");
    assert!(matches!(next_step(Some(&q)), WorkerStep::Drained));
    prepare_enqueue(&mut q, entry(TaskId(4)));
    assert!(!q.paused);
    assert_eq!(q.entries.len(), 1);
}

#[test]
fn success_pops_only_the_head() {
    let mut q = Queue::empty(ProjectId::nil());
    prepare_enqueue(&mut q, entry(TaskId(1)));
    prepare_enqueue(&mut q, entry(TaskId(2)));
    let out = RunOutcome::Completed { run: RunId(1), status: TaskStatus::Succeeded };
    let (events, stop) = finish_head(&mut q, TaskId(1), &out, true);
    assert!(!stop);
    assert_eq!(events.len(), 1);
    assert_eq!(q.entries[0].task_id, TaskId(2));
    let ab = RunOutcome::aborted("prompt missing".into());
    let (events, stop) = finish_head(&mut q, TaskId(2), &ab, false);
    assert!(!stop);
    assert_eq!(events[0], QueueEvent::Interrupted { project: ProjectId::nil(), task: TaskId(2), reason: "prompt missing".into() });
    assert!(matches!(next_step(None), WorkerStep::Sleep));
    assert_eq!(permits(&QueueConfig::default()), 1024);
}

#[test]
fn enqueue_and_run_checks() {
    let mut reg = AgentRegistry::new();
    let m = spec().manifest;
    reg.install(vec![m]).unwrap();
    let req = EnqueueRequest { project_id: ProjectId(1), project_path: "/p".into(), task_id: TaskId(0), agent_id: AgentId::new("a") };
    assert!(check_enqueue(&req, None, None).is_err());
    assert!(check_enqueue(&req, Some(ProjectId(2)), None).is_err());
    let a = reg.get(&AgentId::new("a"));
    assert!(check_enqueue(&req, Some(ProjectId(1)), a).is_err());
    match agent_for_entry(&reg, &entry(TaskId(5))) {
        Err(RunOutcome::Aborted { reason }) => assert_eq!(reason, "agent a not installed"),
        _ => panic!("expected abort"),
    }
    reg.reload_detection(vec![Detection { installed: true, resolved_path: None, version: None, warning: None }]);
    assert!(check_enqueue(&req, Some(ProjectId(1)), reg.get(&AgentId::new("a"))).is_ok());
    assert!(agent_for_entry(&reg, &entry(TaskId(5))).is_ok());
    let mut other = entry(TaskId(6));
    other.agent_id = AgentId::new("zz");
    match agent_for_entry(&reg, &other) {
        Err(RunOutcome::Aborted { reason }) => assert_eq!(reason, "unknown agent zz"),
        _ => panic!("expected abort"),
    }
}
