use lattice::ids::{TaskId, TemplateId};
use lattice::watch::{
    classify, classify_config, handle_event, route, tmp_sibling, ChangeKind, Debouncer, StoreEvent,
};

const ID: &str = "0190a5b2-7c3d-7e4f-8a9b-0c1d2e3f4a5b";

#[test]
fn template_file_change_is_classified() {
    let id = TemplateId::parse(ID).unwrap();
    let p = format!("/state/templates/{ID}/template.toml");
    assert_eq!(
        classify("/state", &p, false),
        Some(StoreEvent::TemplateChanged(id))
    );
    assert_eq!(
        classify("/state/", &p, true),
        Some(StoreEvent::TemplateRemoved(id))
    );
}

#[test]
fn removed_task_dir_is_classified() {
    let id = TaskId::parse(ID).unwrap();
    let p = format!("/state/tasks/{ID}");
    assert_eq!(classify("/state", &p, true), Some(StoreEvent::TaskRemoved(id)));
    assert_eq!(classify("/state", &p, false), None);
    let f = format!("/state/tasks/{ID}/task.toml");
    assert_eq!(classify("/state", &f, false), Some(StoreEvent::TaskChanged(id)));
}

#[test]
fn unknown_paths_mean_nothing() {
    assert_eq!(classify("/state", "/state/tasks/not-an-id/task.toml", false), None);
    let p = format!("/state/tasks/{ID}/prompt.md");
    assert_eq!(classify("/state", &p, false), None);
    assert_eq!(classify("/state", "/state/logs/x.log", false), None);
    assert_eq!(classify("/state", "/state", true), None);
}

#[test]
fn settings_file_is_the_only_config_event() {
    assert_eq!(
        classify_config("/cfg", "/cfg/settings.toml"),
        Some(StoreEvent::SettingsChanged)
    );
    assert_eq!(classify_config("/cfg", "/cfg/agents/runner.toml"), None);
    assert_eq!(classify_config("/cfg", "/other/settings.toml"), None);
}

#[test]
fn debouncer_holds_back_repeats_within_window() {
    let mut d = Debouncer::new();
    let e = StoreEvent::SettingsChanged;
    assert!(d.allow(e, 1_000));
    assert!(!d.allow(e, 1_050));
    assert!(!d.allow(e, 1_099));
    assert!(d.allow(e, 1_100));
    let other = StoreEvent::TemplateChanged(TemplateId::parse(ID).unwrap());
    assert!(d.allow(other, 1_101));
    assert!(!d.allow(e, 1_150));
}

#[test]
fn unknown_paths_are_ignored() {
    assert_eq!(classify("/state", "/state/custom/random.txt", false), None);
    assert_eq!(classify("/state", "/state/custom", false), None);
}

#[test]
fn debouncer_suppresses_duplicates() {
    let mut d = Debouncer::new();
    let evt = StoreEvent::SettingsChanged;
    assert!(d.allow(evt, 0));
    assert!(!d.allow(evt, 1));
    assert!(d.allow(evt, 1 + 100 + 10));
}

#[test]
fn settings_file_must_be_exactly_that_path() {
    assert_eq!(classify_config("/cfg", "/cfg/./settings.toml"), Some(StoreEvent::SettingsChanged));
    assert_eq!(classify_config("/cfg", "/cfg/x/../settings.toml"), None);
    assert_eq!(classify_config("/elsewhere", "/settings.toml"), None);
    assert_eq!(classify_config("/cfg", "/cfg//settings.toml"), Some(StoreEvent::SettingsChanged));
}

#[test]
fn atomic_write_siblings_are_recognised() {
    assert!(tmp_sibling("/state/templates/x/template.toml.tmp.1234"));
    assert!(tmp_sibling(".settings.tmp.9"));
    assert!(!tmp_sibling("/state/templates/x/template.toml"));
    assert!(!tmp_sibling("/state/a.tmp.b/.."));
    assert!(!tmp_sibling("/"));
}

#[test]
fn route_reads_state_then_config() {
    let id = TemplateId::parse(ID).unwrap();
    let p = format!("/state/templates/{ID}/template.toml");
    assert_eq!(route("/state", "/cfg", &p, false), Some(StoreEvent::TemplateChanged(id)));
    let tmp = format!("/state/templates/{ID}/template.toml.tmp.77");
    assert_eq!(route("/state", "/cfg", &tmp, false), None);
    assert_eq!(route("/state", "/cfg", "/cfg/settings.toml", false), Some(StoreEvent::SettingsChanged));
    assert_eq!(route("/state", "/cfg", "/cfg/settings.toml", true), None);
}

#[test]
fn notice_yields_each_event_once() {
    let id = TemplateId::parse(ID).unwrap();
    let mut d = Debouncer::new();
    let t = format!("/state/templates/{ID}/template.toml");
    let paths = vec![
        t.clone(),
        format!("{t}.tmp.5"),
        "/cfg/settings.toml".to_string(),
        t.clone(),
        "/state/logs/x.log".to_string(),
    ];
    let evs = handle_event("/state", "/cfg", &mut d, ChangeKind::Modified, &paths, 5_000);
    assert_eq!(evs, vec![StoreEvent::TemplateChanged(id), StoreEvent::SettingsChanged]);
    let again = handle_event("/state", "/cfg", &mut d, ChangeKind::Created, &paths, 5_050);
    assert!(again.is_empty());
    let later = handle_event("/state", "/cfg", &mut d, ChangeKind::Removed, &paths, 5_200);
    assert_eq!(later, vec![StoreEvent::TemplateRemoved(id)]);
    let other = handle_event("/state", "/cfg", &mut d, ChangeKind::Other, &paths, 9_000);
    assert!(other.is_empty());
}
