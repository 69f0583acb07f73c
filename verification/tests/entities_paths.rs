use lattice::entities::{
    current_schema_version, CacheSettings, Project, Queue, QueueEntry, Run, RunStatus, Settings,
};
use lattice::ids::{AgentId, ProjectId, TaskId};
use lattice::paths::{join, Paths};
use lattice::time::Timestamp;
use std::path::PathBuf;

#[test]
fn queue_pops_in_push_order() {
    let now = Timestamp::parse("2026-04-24T10:40:00Z").unwrap();
    let mut q = Queue::empty(ProjectId::new());
    let e1 = QueueEntry { task_id: TaskId::new(), agent_id: AgentId::new("a"), enqueued_at: now };
    let e2 = QueueEntry { task_id: TaskId::new(), agent_id: AgentId::new("a"), enqueued_at: now };
    q.push_back(e1.clone());
    q.push_back(e2.clone());
    assert_eq!(q.pop_front().unwrap().task_id, e1.task_id);
    assert_eq!(q.pop_front().unwrap().task_id, e2.task_id);
    assert!(q.pop_front().is_none());
}

#[test]
fn new_entities_start_empty() {
    let now = Timestamp::parse("2026-04-24T10:12:00Z").unwrap();
    let p = Project::new("acme", "/tmp/acme", now);
    assert_eq!(p.name, "acme");
    assert_eq!(p.path, "/tmp/acme");
    assert!(p.queue.is_empty());
    assert_eq!(p.schema_version, current_schema_version());
    let r = Run::new(p.id, TaskId::new(), AgentId::new("x"), now);
    assert_eq!(r.status, RunStatus::Queued);
    assert!(r.pid.is_none());
    let s = Settings::default();
    assert_eq!(s.cache, CacheSettings { max_entries: 4096, max_bytes: 67_108_864 });
    assert_eq!(s.logging.level, "info");
}

#[test]
fn with_roots_derives_all_locations() {
    let cfg = PathBuf::from("/tmp/cfg-root");
    let state = PathBuf::from("/tmp/state-root");
    let paths = Paths::with_roots(cfg.to_str().unwrap(), state.to_str().unwrap());
    assert_eq!(PathBuf::from(paths.settings_file()), cfg.join("settings.toml"));
    assert_eq!(PathBuf::from(paths.template_file("T1")), state.join("templates/T1/template.toml"));
    assert_eq!(PathBuf::from(paths.task_file("K1")), state.join("tasks/K1/task.toml"));
    assert_eq!(PathBuf::from(paths.tmp_dir()), state.join("tmp"));
    assert_eq!(PathBuf::from(paths.logs_dir()), state.join("logs"));
}

#[test]
fn join_follows_pathbuf() {
    for (a, b) in [("a", "b"), ("a/", "b"), ("", "b"), ("a", "/abs"), ("a", "")] {
        assert_eq!(PathBuf::from(join(a, b)), PathBuf::from(a).join(b));
    }
    assert_eq!(join("a/", "b"), "a/b");
    assert_eq!(join("x", "/y"), "/y");
}

#[test]
fn env_overrides_win_and_fill_in_platform_roots() {
    let p = Paths::from_choices(Some("/c".into()), Some("/s".into()), None).unwrap();
    assert_eq!(p.config_root(), "/c");
    assert_eq!(p.state_root(), "/s");
    let p = Paths::from_choices(None, Some("/s".into()), Some(("/pc".into(), "/ps".into()))).unwrap();
    assert_eq!(p.config_root(), "/pc");
    assert_eq!(p.state_root(), "/s");
    assert!(Paths::from_choices(Some("/c".into()), None, None).is_none());
}
