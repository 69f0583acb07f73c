use std::collections::HashMap;

use lattice::derived::{
    is_excluded, CmdOutcome, CmdProvider, DeriveError, DerivedResolver, DerivedSpec, EnvProvider,
    FsProvider, JsonValue, ProviderConfig, ProviderKind,
};

#[derive(Default)]
struct FakeFs {
    files: HashMap<String, Vec<u8>>,
    tree: Vec<String>,
}

impl FsProvider for FakeFs {
    fn read_file(&self, p: &str) -> Result<Vec<u8>, String> {
        self.files
            .get(p)
            .cloned()
            .ok_or_else(|| format!("no such file: {p:?}"))
    }

    fn list_tree(&self, _root: &str, _depth: u32, _exclude: &Vec<String>) -> Result<Vec<String>, String> {
        Ok(self.tree.clone())
    }
}

#[derive(Default)]
struct FakeCmd {
    outcomes: HashMap<String, (Vec<u8>, Option<i32>)>,
}

impl CmdProvider for FakeCmd {
    fn run(&self, _cwd: &str, argv: &Vec<String>, _timeout_ms: u64) -> Result<CmdOutcome, DeriveError> {
        let key = argv.join(" ");
        self.outcomes
            .get(&key)
            .map(|(stdout, code)| CmdOutcome {
                stdout: stdout.clone(),
                exit_code: *code,
            })
            .ok_or(DeriveError::ProviderFailed {
                name: "cmd".into(),
                reason: format!("unexpected argv in test: {key}"),
            })
    }
}

#[derive(Default)]
struct FakeEnv {
    vars: HashMap<String, String>,
}

impl EnvProvider for FakeEnv {
    fn get(&self, k: &str) -> Option<String> {
        self.vars.get(k).cloned()
    }
}

fn resolver<'a>(
    fs: &'a FakeFs,
    cmd: &'a FakeCmd,
    env: &'a FakeEnv,
) -> DerivedResolver<'a, FakeFs, FakeCmd, FakeEnv> {
    DerivedResolver {
        project_root: "/project".to_string(),
        fs,
        cmd,
        env,
    }
}

fn s(v: &str) -> JsonValue {
    JsonValue::Str(v.to_string())
}

fn n(v: u64) -> JsonValue {
    JsonValue::Number(Some(v))
}

fn obj(entries: Vec<(&str, JsonValue)>) -> JsonValue {
    JsonValue::Object(entries.into_iter().map(|(k, v)| (k.to_string(), v)).collect())
}

fn specs(entries: Vec<(&str, JsonValue)>) -> Vec<(String, DerivedSpec)> {
    entries
        .into_iter()
        .map(|(k, v)| (k.to_string(), DerivedSpec(v)))
        .collect()
}

fn value_of<'a>(out: &'a [(String, Option<String>)], name: &str) -> &'a Option<String> {
    &out.iter().find(|(k, _)| k == name).unwrap().1
}

#[test]
fn file_provider_truncates() {
    let mut fs = FakeFs::default();
    fs.files
        .insert("/project/README.md".to_string(), vec![b'a'; 10_000]);
    let cmd = FakeCmd::default();
    let env = FakeEnv::default();
    let specs = specs(vec![(
        "readme",
        obj(vec![("file", s("README.md")), ("max_bytes", n(4096))]),
    )]);
    let out = resolver(&fs, &cmd, &env).resolve_all(&specs).unwrap();
    assert_eq!(value_of(&out, "readme").as_ref().unwrap().len(), 4096);
}

#[test]
fn cmd_provider_trims_output() {
    let fs = FakeFs::default();
    let mut cmd = FakeCmd::default();
    cmd.outcomes.insert(
        "git rev-parse HEAD".into(),
        (b"deadbeef\n".to_vec(), Some(0)),
    );
    let env = FakeEnv::default();
    let specs = specs(vec![(
        "head",
        obj(vec![(
            "cmd",
            JsonValue::Array(vec![s("git"), s("rev-parse"), s("HEAD")]),
        )]),
    )]);
    let out = resolver(&fs, &cmd, &env).resolve_all(&specs).unwrap();
    assert_eq!(value_of(&out, "head").as_deref(), Some("deadbeef"));
}

#[test]
fn cmd_nonzero_exit_fails_unless_optional() {
    let fs = FakeFs::default();
    let mut cmd = FakeCmd::default();
    cmd.outcomes.insert("false".into(), (vec![], Some(1)));
    let env = FakeEnv::default();
    let required = specs(vec![(
        "x",
        obj(vec![("cmd", JsonValue::Array(vec![s("false")]))]),
    )]);
    let res = resolver(&fs, &cmd, &env).resolve_all(&required);
    assert!(res.is_err());

    let optional = specs(vec![(
        "x",
        obj(vec![
            ("cmd", JsonValue::Array(vec![s("false")])),
            ("optional", JsonValue::Bool(true)),
        ]),
    )]);
    let out = resolver(&fs, &cmd, &env).resolve_all(&optional).unwrap();
    assert_eq!(*value_of(&out, "x"), None);
}

#[test]
fn env_provider_missing_required_fails() {
    let fs = FakeFs::default();
    let cmd = FakeCmd::default();
    let env = FakeEnv::default();
    let specs = specs(vec![("proxy", obj(vec![("env", s("HTTP_PROXY"))]))]);
    assert!(resolver(&fs, &cmd, &env).resolve_all(&specs).is_err());
}

#[test]
fn env_provider_optional_is_null_when_missing() {
    let fs = FakeFs::default();
    let cmd = FakeCmd::default();
    let env = FakeEnv::default();
    let specs = specs(vec![(
        "proxy",
        obj(vec![("env", s("HTTP_PROXY")), ("optional", JsonValue::Bool(true))]),
    )]);
    let out = resolver(&fs, &cmd, &env).resolve_all(&specs).unwrap();
    assert_eq!(*value_of(&out, "proxy"), None);
}

#[test]
fn tree_provider_respects_max_entries() {
    let fs = FakeFs {
        tree: (0..1000).map(|i| format!("/project/f{i}.rs")).collect(),
        ..FakeFs::default()
    };
    let cmd = FakeCmd::default();
    let env = FakeEnv::default();
    let specs = specs(vec![(
        "tree",
        obj(vec![("tree", obj(vec![("depth", n(1)), ("max_entries", n(5))]))]),
    )]);
    let out = resolver(&fs, &cmd, &env).resolve_all(&specs).unwrap();
    let rendered = value_of(&out, "tree").as_ref().unwrap();
    assert_eq!(rendered.lines().count(), 5);
}

#[test]
fn unknown_provider_errors() {
    let fs = FakeFs::default();
    let cmd = FakeCmd::default();
    let env = FakeEnv::default();
    let specs = specs(vec![("oops", obj(vec![("unknown", s("x"))]))]);
    let err = resolver(&fs, &cmd, &env).resolve_all(&specs).unwrap_err();
    assert!(matches!(err, DeriveError::UnknownKind(_)));
}

#[test]
fn tree_lines_are_relative_to_root() {
    let fs = FakeFs {
        tree: vec!["/project/src/main.rs".to_string(), "/elsewhere/x".to_string()],
        ..FakeFs::default()
    };
    let cmd = FakeCmd::default();
    let env = FakeEnv::default();
    let specs = specs(vec![("tree", obj(vec![("tree", obj(vec![]))]))]);
    let out = resolver(&fs, &cmd, &env).resolve_all(&specs).unwrap();
    assert_eq!(
        value_of(&out, "tree").as_deref(),
        Some("src/main.rs\n/elsewhere/x\n")
    );
}

#[test]
fn env_value_is_taken_as_is() {
    let fs = FakeFs::default();
    let cmd = FakeCmd::default();
    let mut env = FakeEnv::default();
    env.vars.insert("HOME".to_string(), " /home/me ".to_string());
    let specs = specs(vec![("home", obj(vec![("env", s("HOME"))]))]);
    let out = resolver(&fs, &cmd, &env).resolve_all(&specs).unwrap();
    assert_eq!(value_of(&out, "home").as_deref(), Some(" /home/me "));
}

#[test]
fn missing_env_message_names_the_variable() {
    let fs = FakeFs::default();
    let cmd = FakeCmd::default();
    let env = FakeEnv::default();
    let specs = specs(vec![("proxy", obj(vec![("env", s("HTTP_PROXY"))]))]);
    let err = resolver(&fs, &cmd, &env).resolve_all(&specs).unwrap_err();
    assert_eq!(
        err.to_string(),
        "provider `proxy` failed: env var `HTTP_PROXY` is not set"
    );
}

#[test]
fn empty_argv_fails_without_running() {
    let fs = FakeFs::default();
    let cmd = FakeCmd::default();
    let env = FakeEnv::default();
    let specs = specs(vec![("x", obj(vec![("cmd", JsonValue::Array(vec![]))]))]);
    let err = resolver(&fs, &cmd, &env).resolve_all(&specs).unwrap_err();
    assert_eq!(
        err,
        DeriveError::ProviderFailed {
            name: "x".to_string(),
            reason: "cmd argv must be non-empty".to_string()
        }
    );
}

#[test]
fn nonzero_exit_message_has_status() {
    let fs = FakeFs::default();
    let mut cmd = FakeCmd::default();
    cmd.outcomes.insert("make".into(), (vec![], Some(-2)));
    let env = FakeEnv::default();
    let specs = specs(vec![("m", obj(vec![("cmd", JsonValue::Array(vec![s("make")]))]))]);
    let err = resolver(&fs, &cmd, &env).resolve_all(&specs).unwrap_err();
    assert_eq!(err.to_string(), "provider `m` failed: cmd exited with status -2");
}

#[test]
fn invalid_utf8_file_fails() {
    let mut fs = FakeFs::default();
    fs.files.insert("/project/bin".to_string(), vec![0xff, 0xfe]);
    let cmd = FakeCmd::default();
    let env = FakeEnv::default();
    let specs = specs(vec![("b", obj(vec![("file", s("bin"))]))]);
    let err = resolver(&fs, &cmd, &env).resolve_all(&specs).unwrap_err();
    assert!(matches!(err, DeriveError::ProviderFailed { ref name, .. } if name == "b"));
}

#[test]
fn config_defaults_and_shape_errors() {
    let c = ProviderConfig::from_value("t", &obj(vec![("tree", obj(vec![]))])).unwrap();
    assert!(!c.optional);
    assert_eq!(
        c.kind,
        ProviderKind::Tree {
            depth: 2,
            exclude: vec![],
            max_entries: 500
        }
    );
    let c = ProviderConfig::from_value("c", &obj(vec![("cmd", JsonValue::Array(vec![s("ls")]))]))
        .unwrap();
    assert_eq!(
        c.kind,
        ProviderKind::Cmd {
            argv: vec!["ls".to_string()],
            timeout_ms: 5000
        }
    );
    let e = ProviderConfig::from_value("f", &obj(vec![("file", n(3))])).unwrap_err();
    assert_eq!(e.to_string(), "provider `f` failed: `file` must be a string");
    let e = ProviderConfig::from_value("c", &obj(vec![("cmd", JsonValue::Array(vec![n(1)]))]))
        .unwrap_err();
    assert_eq!(e.to_string(), "provider `c` failed: `cmd` entries must be strings");
    let e = ProviderConfig::from_value("x", &s("nope")).unwrap_err();
    assert_eq!(e.to_string(), "provider `x` failed: expected a table");
    let e = ProviderConfig::from_value("o", &obj(vec![])).unwrap_err();
    assert_eq!(e.to_string(), "unknown provider kind `o`");
    let c = ProviderConfig::from_value(
        "t",
        &obj(vec![(
            "tree",
            obj(vec![("exclude", JsonValue::Array(vec![s("target"), n(1), s(".git")]))]),
        )]),
    )
    .unwrap();
    assert_eq!(
        c.kind,
        ProviderKind::Tree {
            depth: 2,
            exclude: vec!["target".to_string(), ".git".to_string()],
            max_entries: 500
        }
    );
}

#[test]
fn file_is_read_under_project_root() {
    let mut fs = FakeFs::default();
    fs.files
        .insert("/project/docs/a.md".to_string(), b"hello".to_vec());
    let cmd = FakeCmd::default();
    let env = FakeEnv::default();
    let specs = specs(vec![("a", obj(vec![("file", s("docs/a.md"))]))]);
    let out = resolver(&fs, &cmd, &env).resolve_all(&specs).unwrap();
    assert_eq!(value_of(&out, "a").as_deref(), Some("hello"));
}

#[test]
fn excluded_names_match_by_substring() {
    let ex = vec!["target".to_string(), ".git".to_string()];
    assert!(is_excluded("target", &ex));
    assert!(is_excluded(".github", &ex));
    assert!(!is_excluded("src", &ex));
    assert!(!is_excluded("src", &vec![]));
}
