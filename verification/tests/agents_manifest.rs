use lattice::agents::{
    default_detect_timeout_ms, detect_one, extract_version, AgentError, AgentManifest,
    AgentRegistry, DetectSpec, Detection, InvocationMode, InvocationSpec, RuntimeSpec, WorkingDir,
};
use lattice::ids::AgentId;

fn manifest(id: &str, binary: &str) -> AgentManifest {
    AgentManifest {
        id: AgentId::new(id),
        display_name: id.to_string(),
        binary: binary.to_string(),
        detect: DetectSpec::default(),
        invocation: InvocationSpec::default(),
        runtime: RuntimeSpec::default(),
        env: vec![],
    }
}

#[test]
fn missing_fields_default_reasonably() {
    let m = manifest("minimal", "minimal-cli");
    assert_eq!(m.invocation.mode, InvocationMode::Stdin);
    assert_eq!(m.runtime.working_dir, WorkingDir::Project);
    assert_eq!(m.runtime.kill_grace_ms, 5_000);
    assert_eq!(default_detect_timeout_ms(), 2_000);
    m.validate().unwrap();
}

#[test]
fn empty_binary_rejected() {
    let m = manifest("bad", "");
    assert!(m.validate().is_err());
    assert_eq!(
        m.validate(),
        Err(AgentError::Invocation("agent `bad` has empty `binary`".to_string()))
    );
}

#[test]
fn empty_id_rejected() {
    let m = manifest("", "x");
    assert_eq!(
        m.validate(),
        Err(AgentError::Invocation("manifest `id` must be non-empty".to_string()))
    );
}

#[test]
fn arg_mode_without_prompt_placeholder_rejected() {
    let mut m = manifest("no-placeholder", "x");
    m.invocation = InvocationSpec { mode: InvocationMode::Arg, args: vec!["--run".to_string()] };
    let err = m.validate().unwrap_err();
    assert!(
        matches!(err, AgentError::Invocation(ref msg) if msg.contains("{prompt}")),
        "got {err:?}"
    );
    m.invocation.args.push("--file={prompt_file}".to_string());
    m.validate().unwrap();
}

#[test]
fn kill_grace_ms_capped() {
    let mut m = manifest("slow", "x");
    m.runtime.kill_grace_ms = 999_999;
    assert!(m.validate().is_err());
    m.runtime.kill_grace_ms = 60_000;
    assert!(m.validate().is_ok());
}

#[test]
fn extract_version_with_capture_group() {
    let v = extract_version(r"^cursor-agent\s+(\S+)", "cursor-agent 0.42.1\n");
    assert_eq!(v.as_deref(), Some("0.42.1"));
}

#[test]
fn extract_version_fallback_to_full_match() {
    let v = extract_version(r"\d+\.\d+\.\d+", "vX 1.2.3 beta");
    assert_eq!(v.as_deref(), Some("1.2.3"));
}

#[test]
fn extract_version_invalid_regex_returns_none() {
    let v = extract_version("(", "whatever");
    assert_eq!(v, None);
}

#[test]
fn detection_outcomes() {
    let mut m = manifest("stub", "echo");
    let d = detect_one(&m, None, None);
    assert_eq!(d, Detection { installed: false, resolved_path: None, version: None, warning: None });
    let d = detect_one(&m, Some("/bin/echo".to_string()), None);
    assert!(d.installed && d.version.is_none());
    m.detect = DetectSpec {
        args: vec!["stub 1.2.3".to_string()],
        version_regex: Some(r"stub\s+(\S+)".to_string()),
        timeout_ms: 2000,
    };
    let d = detect_one(&m, Some("/bin/echo".to_string()), Some(Ok("stub 1.2.3\n".to_string())));
    assert_eq!(d.version.as_deref(), Some("1.2.3"));
    let d = detect_one(&m, Some("/bin/echo".to_string()), Some(Err("timed out".to_string())));
    assert!(d.installed);
    assert_eq!(d.warning.as_deref(), Some("timed out"));
}

#[test]
fn registry_orders_replaces_and_filters() {
    let mut reg = AgentRegistry::new();
    reg.install(vec![manifest("zeta", "z"), manifest("alpha", "a")]).unwrap();
    let mut again = manifest("zeta", "z2");
    again.display_name = "Zeta 2".to_string();
    reg.install(vec![again]).unwrap();
    let ids: Vec<String> = reg.list().iter().map(|a| a.manifest.id.0.clone()).collect();
    assert_eq!(ids, vec!["alpha", "zeta"]);
    assert_eq!(reg.get(&AgentId::new("zeta")).unwrap().manifest.binary, "z2");
    assert!(reg.get(&AgentId::new("nope")).is_none());
    assert!(reg.installed().is_empty());
    reg.reload_detection(vec![
        Detection { installed: true, resolved_path: Some("/a".into()), version: None, warning: None },
        Detection { installed: false, resolved_path: None, version: None, warning: None },
    ]);
    let inst: Vec<String> = reg.installed().iter().map(|a| a.manifest.id.0.clone()).collect();
    assert_eq!(inst, vec!["alpha"]);
    let err = reg.install(vec![manifest("ok", "o"), manifest("bad", " "), manifest("later", "l")]);
    assert!(err.is_err());
    assert!(reg.get(&AgentId::new("ok")).is_some());
    assert!(reg.get(&AgentId::new("later")).is_none());
}
