//! Agent manifests (how to detect and invoke an external CLI agent),
//! the registry of known agents, and the pure parts of spawning one:
//! its argv, its working directory and its exit report.

use vstd::prelude::*;
use crate::entities::TaskStatus;
use crate::ids::{AgentId, RunId, hyphenated};
use crate::num::{dec_signed, fmt_i64};
use crate::openapi::{text_lt, text_lt_exec};
use crate::text::{
    append, chars_of, contains, contains_exec, eq, replace, replace_exec, string_of, trim,
    v_trim,
};

verus! {

/// What can go wrong with agents.
#[derive(Clone, Debug, PartialEq, Eq)]
pub enum AgentError {
    ManifestDecode { path: String, message: String },
    ManifestIo { path: String, message: String },
    NotInstalled(String),
    BinaryNotFound(String),
    Spawn { id: String, message: String },
    Io(String),
    Invocation(String),
    Duplicate(String),
}

/// How to probe for an agent and read its version.
#[derive(Clone, Debug, PartialEq, Eq)]
pub struct DetectSpec {
    /// The argv of the probe; empty means "the binary exists" is enough.
    pub args: Vec<String>,
    /// Applied to the probe's output; group 1, else the whole match, is
    /// the version.
    pub version_regex: Option<String>,
    pub timeout_ms: u64,
}

impl Default for DetectSpec {
    fn default() -> (r: DetectSpec)
        ensures
            r.args@.len() == 0,
            r.version_regex is None,
            r.timeout_ms == 0,
    {
        DetectSpec { args: Vec::new(), version_regex: None, timeout_ms: 0 }
    }
}

/// The probe timeout a manifest gets when it names none.
pub fn default_detect_timeout_ms() -> (r: u64)
    ensures
        r == 2000,
{
    2_000
}

/// How the prompt reaches the agent.
#[derive(Clone, Copy, Debug, PartialEq, Eq, Structural)]
pub enum InvocationMode {
    /// On the agent's standard input.
    Stdin,
    /// In place of `{prompt}` in the arguments.
    Arg,
    /// In a file whose path replaces `{prompt_file}`.
    File,
}

/// The argv tail and prompt delivery of an agent.
#[derive(Clone, Debug, PartialEq, Eq)]
pub struct InvocationSpec {
    pub mode: InvocationMode,
    pub args: Vec<String>,
}

impl Default for InvocationSpec {
    fn default() -> (r: InvocationSpec)
        ensures
            r.mode == InvocationMode::Stdin,
            r.args@.len() == 0,
    {
        InvocationSpec { mode: InvocationMode::Stdin, args: Vec::new() }
    }
}

/// Where an agent runs.
#[derive(Clone, Debug, PartialEq, Eq)]
pub enum WorkingDir {
    /// The target project's directory.
    Project,
    /// A fixed directory.
    Custom { path: String },
}

/// Runtime policy of an agent.
#[derive(Clone, Debug, PartialEq, Eq)]
pub struct RuntimeSpec {
    pub working_dir: WorkingDir,
    /// Grace period between the polite and the forced kill.
    pub kill_grace_ms: u64,
}

impl Default for RuntimeSpec {
    fn default() -> (r: RuntimeSpec)
        ensures
            r.working_dir == WorkingDir::Project,
            r.kill_grace_ms == 5000,
    {
        RuntimeSpec { working_dir: WorkingDir::Project, kill_grace_ms: 5_000 }
    }
}

/// The description of one agent.
#[derive(Clone, Debug, PartialEq, Eq)]
pub struct AgentManifest {
    pub id: AgentId,
    pub display_name: String,
    /// A name looked up on `PATH`, or an absolute path.
    pub binary: String,
    pub detect: DetectSpec,
    pub invocation: InvocationSpec,
    pub runtime: RuntimeSpec,
    /// Extra environment, by name.
    pub env: Vec<(String, String)>,
}

pub open spec fn strings(s: Seq<String>) -> Seq<Seq<char>> {
    s.map_values(|x: String| x@)
}

/// Some argument holds a prompt placeholder.
pub open spec fn has_placeholder(args: Seq<Seq<char>>) -> bool {
    exists|i: int|
        0 <= i < args.len() && (contains(args[i], "{prompt}"@) || contains(
            args[i],
            "{prompt_file}"@,
        ))
}

/// The first rule a manifest breaks, as the message of the error: an
/// empty id, a blank binary, `arg` mode without a prompt placeholder,
/// or a grace period over a minute.
pub open spec fn manifest_problem(m: AgentManifest) -> Option<Seq<char>> {
    let id = m.id.0@;
    if id.len() == 0 {
        Some("manifest `id` must be non-empty"@)
    } else if trim(m.binary@).len() == 0 {
        Some("agent `"@ + id + "` has empty `binary`"@)
    } else if m.invocation.mode == InvocationMode::Arg && !has_placeholder(
        strings(m.invocation.args@),
    ) {
        Some(
            "agent `"@ + id
                + "`: invocation.mode = \"arg\" requires a {prompt} or {prompt_file} placeholder in invocation.args"@,
        )
    } else if m.runtime.kill_grace_ms > 60_000 {
        Some("agent `"@ + id + "`: kill_grace_ms must be <= 60000"@)
    } else {
        None
    }
}

fn agent_msg(id: &String, tail: &str) -> (r: String)
    ensures
        r@ == "agent `"@ + id@ + tail@,
{
    let mut v = chars_of("agent `");
    append(&mut v, &chars_of(id.as_str()));
    append(&mut v, &chars_of(tail));
    string_of(&v)
}

fn has_placeholder_exec(args: &Vec<String>) -> (r: bool)
    ensures
        r == has_placeholder(strings(args@)),
{
    let p1 = chars_of("{prompt}");
    let p2 = chars_of("{prompt_file}");
    let mut i: usize = 0;
    while i < args.len()
        invariant
            i <= args.len(),
            p1@ == "{prompt}"@,
            p2@ == "{prompt_file}"@,
            forall|j: int|
                0 <= j < i ==> !(contains(args@[j]@, "{prompt}"@) || contains(
                    args@[j]@,
                    "{prompt_file}"@,
                )),
        decreases args.len() - i,
    {
        let a = chars_of(args[i].as_str());
        if contains_exec(&a, &p1) || contains_exec(&a, &p2) {
            proof {
                assert(strings(args@)[i as int] == args@[i as int]@);
            }
            return true;
        }
        i = i + 1;
    }
    proof {
        if has_placeholder(strings(args@)) {
            let j = choose|j: int|
                0 <= j < strings(args@).len() && (contains(strings(args@)[j], "{prompt}"@)
                    || contains(strings(args@)[j], "{prompt_file}"@));
            assert(strings(args@)[j] == args@[j]@);
        }
    }
    false
}

impl AgentManifest {
    /// Checks the rules a decoded manifest must keep.
    pub fn validate(&self) -> (r: Result<(), AgentError>)
        ensures
            match manifest_problem(*self) {
                None => r is Ok,
                Some(msg) => r matches Err(AgentError::Invocation(m)) && m@ == msg,
            },
    {
        if self.id.as_str().is_empty() {
            return Err(AgentError::Invocation("manifest `id` must be non-empty".to_string()));
        }
        if v_trim(&chars_of(self.binary.as_str())).len() == 0 {
            return Err(AgentError::Invocation(agent_msg(&self.id.0, "` has empty `binary`")));
        }
        if self.invocation.mode == InvocationMode::Arg && !has_placeholder_exec(
            &self.invocation.args,
        ) {
            return Err(
                AgentError::Invocation(
                    agent_msg(
                        &self.id.0,
                        "`: invocation.mode = \"arg\" requires a {prompt} or {prompt_file} placeholder in invocation.args",
                    ),
                ),
            );
        }
        if self.runtime.kill_grace_ms > 60_000 {
            return Err(
                AgentError::Invocation(agent_msg(&self.id.0, "`: kill_grace_ms must be <= 60000")),
            );
        }
        Ok(())
    }
}

// ---------------------------------------------------------------------
// Version extraction.

/// What `regex` finds for the first match of `pattern` in `text`: the
/// first group, if it took part, and the whole match; nothing when the
/// pattern does not compile or does not match.
pub uninterp spec fn regex_first_captures(pattern: Seq<char>, text: Seq<char>) -> Option<
    (Option<Seq<char>>, Seq<char>),
>;

/// Calls `regex::Regex::new(pattern)` and, on success, `captures(text)`,
/// giving group 1 and group 0 of the first match. The claim: the result
/// is the named one.
#[verifier::external_body]
fn regex_captures(pattern: &str, text: &str) -> (r: Option<(Option<String>, String)>)
    ensures
        match r {
            None => regex_first_captures(pattern@, text@) is None,
            Some((g1, g0)) => regex_first_captures(pattern@, text@) == Some(
                (
                    match g1 {
                        Some(s) => Some(s@),
                        None => None,
                    },
                    g0@,
                ),
            ),
        },
{
    let re = regex::Regex::new(pattern).ok()?;
    let caps = re.captures(text)?;
    Some((caps.get(1).map(|m| m.as_str().to_string()), caps[0].to_string()))
}

/// The version a probe's output shows: group 1 of the first match, or
/// the whole match when group 1 did not take part.
pub open spec fn version_of(pattern: Seq<char>, text: Seq<char>) -> Option<Seq<char>> {
    match regex_first_captures(pattern, text) {
        None => None,
        Some((Some(g1), _)) => Some(g1),
        Some((None, g0)) => Some(g0),
    }
}

/// Reads a version out of a probe's output.
pub fn extract_version(pattern: &str, text: &str) -> (r: Option<String>)
    ensures
        match r {
            Some(v) => version_of(pattern@, text@) == Some(v@),
            None => version_of(pattern@, text@) is None,
        },
{
    match regex_captures(pattern, text) {
        None => None,
        Some((Some(g1), _)) => Some(g1),
        Some((None, g0)) => Some(g0),
    }
}

// ---------------------------------------------------------------------
// Detection and the registry.

/// A manifest with what detection found out about it.
#[derive(Clone, Debug, PartialEq, Eq)]
pub struct AvailableAgent {
    pub manifest: AgentManifest,
    pub installed: bool,
    pub resolved_path: Option<String>,
    pub version: Option<String>,
    /// Set when the binary exists but probing it failed.
    pub detection_warning: Option<String>,
}

/// What detection found out about one agent.
#[derive(Clone, Debug, PartialEq, Eq)]
pub struct Detection {
    pub installed: bool,
    pub resolved_path: Option<String>,
    pub version: Option<String>,
    pub warning: Option<String>,
}

pub open spec fn sopt(o: Option<String>) -> Option<Seq<char>> {
    match o {
        Some(s) => Some(s@),
        None => None,
    }
}

/// Whether the probe must run: the binary resolved and the manifest has
/// probe arguments.
pub open spec fn needs_probe(m: AgentManifest, resolved: Option<String>) -> bool {
    resolved is Some && m.detect.args@.len() > 0
}

/// The outcome of detecting `m`, given where its binary resolved to (if
/// anywhere) and, when it was run, what the probe printed or why it
/// failed. A missing binary is not an error: the agent is just not
/// installed.
pub open spec fn detection_of(
    m: AgentManifest,
    resolved: Option<String>,
    probe: Option<Result<String, String>>,
) -> (bool, Option<Seq<char>>, Option<Seq<char>>, Option<Seq<char>>) {
    match resolved {
        None => (false, None, None, None),
        Some(p) => if m.detect.args@.len() == 0 {
            (true, Some(p@), None, None)
        } else {
            match probe {
                Some(Ok(out)) => (true, Some(p@), match m.detect.version_regex {
                    Some(pat) => version_of(pat@, out@),
                    None => None,
                }, None),
                Some(Err(e)) => (true, Some(p@), None, Some(e@)),
                None => (true, Some(p@), None, None),
            }
        },
    }
}

/// Detects one agent from the resolution of its binary and the output
/// of its probe.
pub fn detect_one(
    manifest: &AgentManifest,
    resolved: Option<String>,
    probe: Option<Result<String, String>>,
) -> (r: Detection)
    requires
        needs_probe(*manifest, resolved) ==> probe is Some,
    ensures
        (r.installed, sopt(r.resolved_path), sopt(r.version), sopt(r.warning)) == detection_of(
            *manifest,
            resolved,
            probe,
        ),
{
    match resolved {
        None => Detection { installed: false, resolved_path: None, version: None, warning: None },
        Some(p) => {
            if manifest.detect.args.len() == 0 {
                return Detection {
                    installed: true,
                    resolved_path: Some(p),
                    version: None,
                    warning: None,
                };
            }
            match probe {
                Some(Ok(out)) => {
                    let version = match &manifest.detect.version_regex {
                        Some(pat) => extract_version(pat.as_str(), out.as_str()),
                        None => None,
                    };
                    Detection { installed: true, resolved_path: Some(p), version, warning: None }
                },
                Some(Err(e)) => Detection {
                    installed: true,
                    resolved_path: Some(p),
                    version: None,
                    warning: Some(e),
                },
                None => Detection {
                    installed: true,
                    resolved_path: Some(p),
                    version: None,
                    warning: None,
                },
            }
        },
    }
}

/// The key of an entry.
pub open spec fn key(a: AvailableAgent) -> Seq<char> {
    a.manifest.id.0@
}

/// Entries in strictly increasing id order.
pub open spec fn sorted_by_id(s: Seq<AvailableAgent>) -> bool {
    forall|i: int, j: int| 0 <= i < j < s.len() ==> text_lt(key(s[i]), key(s[j]))
}

/// `a` put in its place in `s`, replacing an entry with the same id.
pub open spec fn registry_put(s: Seq<AvailableAgent>, a: AvailableAgent) -> Seq<AvailableAgent>
    decreases s.len(),
{
    if s.len() == 0 {
        seq![a]
    } else if key(s[0]) == key(a) {
        seq![a] + s.drop_first()
    } else if text_lt(key(a), key(s[0])) {
        seq![a] + s
    } else {
        seq![s[0]] + registry_put(s.drop_first(), a)
    }
}

/// A manifest as a not-yet-detected entry.
pub open spec fn fresh_entry(m: AgentManifest) -> AvailableAgent {
    AvailableAgent {
        manifest: m,
        installed: false,
        resolved_path: None,
        version: None,
        detection_warning: None,
    }
}

/// Installing manifests in order: each is validated, then put in; the
/// first invalid one stops the install with its message, keeping those
/// before it.
pub open spec fn install_all(s: Seq<AvailableAgent>, ms: Seq<AgentManifest>) -> (
    Seq<AvailableAgent>,
    Option<Seq<char>>,
)
    decreases ms.len(),
{
    if ms.len() == 0 {
        (s, None)
    } else {
        match manifest_problem(ms[0]) {
            Some(msg) => (s, Some(msg)),
            None => install_all(registry_put(s, fresh_entry(ms[0])), ms.drop_first()),
        }
    }
}

/// The installed entries, in order.
pub open spec fn installed_only(s: Seq<AvailableAgent>) -> Seq<AvailableAgent>
    decreases s.len(),
{
    if s.len() == 0 {
        s
    } else if s.last().installed {
        installed_only(s.drop_last()).push(s.last())
    } else {
        installed_only(s.drop_last())
    }
}

proof fn lemma_lt_irrefl(a: Seq<char>)
    ensures
        !text_lt(a, a),
    decreases a.len(),
{
    if a.len() > 0 {
        lemma_lt_irrefl(a.drop_first());
    }
}

pub(crate) proof fn lemma_lt_trans(a: Seq<char>, b: Seq<char>, c: Seq<char>)
    requires
        text_lt(a, b),
        text_lt(b, c),
    ensures
        text_lt(a, c),
    decreases a.len(),
{
    if a.len() > 0 && b.len() > 0 && c.len() > 0 && a[0] == b[0] && b[0] == c[0] {
        lemma_lt_trans(a.drop_first(), b.drop_first(), c.drop_first());
    }
}

pub(crate) proof fn lemma_lt_total(a: Seq<char>, b: Seq<char>)
    requires
        a != b,
    ensures
        text_lt(a, b) || text_lt(b, a),
    decreases a.len(),
{
    if a.len() > 0 && b.len() > 0 && a[0] == b[0] {
        if a.drop_first() == b.drop_first() {
            assert(a =~= seq![a[0]] + a.drop_first());
            assert(b =~= seq![b[0]] + b.drop_first());
        }
        lemma_lt_total(a.drop_first(), b.drop_first());
    } else if a.len() == 0 && b.len() == 0 {
        assert(a =~= b);
    }
}

proof fn lemma_put_props(s: Seq<AvailableAgent>, a: AvailableAgent)
    requires
        sorted_by_id(s),
    ensures
        sorted_by_id(registry_put(s, a)),
        forall|x: AvailableAgent| #[trigger]
            registry_put(s, a).contains(x) ==> x == a || s.contains(x),
        registry_put(s, a).len() > 0,
        registry_put(s, a)[0] == a || (s.len() > 0 && registry_put(s, a)[0] == s[0]),
    decreases s.len(),
{
    let r = registry_put(s, a);
    if s.len() == 0 {
    } else if key(s[0]) == key(a) {
        assert forall|i: int, j: int| 0 <= i < j < r.len() implies text_lt(key(r[i]), key(r[j])) by {
            if i == 0 {
                assert(r[j] == s[j]);
            } else {
                assert(r[i] == s[i] && r[j] == s[j]);
            }
        }
        assert forall|x: AvailableAgent| #[trigger] r.contains(x) implies x == a || s.contains(x) by {
            let k = choose|k: int| 0 <= k < r.len() && r[k] == x;
            if k > 0 {
                assert(s[k] == x);
            }
        }
    } else if text_lt(key(a), key(s[0])) {
        assert forall|i: int, j: int| 0 <= i < j < r.len() implies text_lt(key(r[i]), key(r[j])) by {
            if i == 0 {
                if j > 1 {
                    lemma_lt_trans(key(a), key(s[0]), key(s[j - 1]));
                }
            } else {
                assert(r[i] == s[i - 1] && r[j] == s[j - 1]);
            }
        }
        assert forall|x: AvailableAgent| #[trigger] r.contains(x) implies x == a || s.contains(x) by {
            let k = choose|k: int| 0 <= k < r.len() && r[k] == x;
            if k > 0 {
                assert(s[k - 1] == x);
            }
        }
    } else {
        let t = s.drop_first();
        assert(sorted_by_id(t)) by {
            assert forall|i: int, j: int| 0 <= i < j < t.len() implies text_lt(key(t[i]), key(t[j])) by {
                assert(t[i] == s[i + 1] && t[j] == s[j + 1]);
            }
        }
        lemma_put_props(t, a);
        let rt = registry_put(t, a);
        lemma_lt_total(key(a), key(s[0]));
        assert forall|i: int, j: int| 0 <= i < j < r.len() implies text_lt(key(r[i]), key(r[j])) by {
            if i == 0 {
                assert(r[j] == rt[j - 1]);
                assert(rt.contains(rt[j - 1]));
                if rt[j - 1] == a {
                } else {
                    let k = choose|k: int| 0 <= k < t.len() && t[k] == rt[j - 1];
                    assert(s[k + 1] == rt[j - 1]);
                }
            } else {
                assert(r[i] == rt[i - 1] && r[j] == rt[j - 1]);
            }
        }
        assert forall|x: AvailableAgent| #[trigger] r.contains(x) implies x == a || s.contains(x) by {
            let k = choose|k: int| 0 <= k < r.len() && r[k] == x;
            if k > 0 {
                assert(rt.contains(rt[k - 1]));
                if rt[k - 1] != a {
                    let m = choose|m: int| 0 <= m < t.len() && t[m] == rt[k - 1];
                    assert(s[m + 1] == x);
                }
            }
        }
    }
}


/// Some entry of `s` has the id `k`.
pub open spec fn has_key(s: Seq<AvailableAgent>, k: Seq<char>) -> bool {
    exists|i: int| 0 <= i < s.len() && key(#[trigger] s[i]) == k
}

/// The entry of `s` with the id `k`, if any.
pub open spec fn found(s: Seq<AvailableAgent>, k: Seq<char>) -> Option<AvailableAgent> {
    if has_key(s, k) {
        Some(s[choose|i: int| 0 <= i < s.len() && key(#[trigger] s[i]) == k])
    } else {
        None
    }
}

/// In entries ordered strictly by id, an id occurs at most once.
pub proof fn lemma_sorted_unique(s: Seq<AvailableAgent>, i: int, j: int)
    requires
        sorted_by_id(s),
        0 <= i < s.len(),
        0 <= j < s.len(),
        key(s[i]) == key(s[j]),
    ensures
        i == j,
{
    if i < j {
        lemma_lt_irrefl(key(s[i]));
    } else if j < i {
        lemma_lt_irrefl(key(s[j]));
    }
}

/// In entries ordered strictly by id, looking up the id of an entry finds
/// that entry.
pub proof fn lemma_found_listed(s: Seq<AvailableAgent>, i: int)
    requires
        sorted_by_id(s),
        0 <= i < s.len(),
    ensures
        found(s, key(s[i])) == Some(s[i]),
{
    assert(has_key(s, key(s[i])));
    let j = choose|j: int| 0 <= j < s.len() && key(#[trigger] s[j]) == key(s[i]);
    lemma_sorted_unique(s, i, j);
}

/// Putting an entry in: one with the same id is replaced (the count
/// stays), else the count grows by one; the entry for that id is then the
/// new one.
pub proof fn lemma_put_replaces(s: Seq<AvailableAgent>, a: AvailableAgent)
    requires
        sorted_by_id(s),
    ensures
        registry_put(s, a).len() == s.len() + if has_key(s, key(a)) {
            0int
        } else {
            1int
        },
        found(registry_put(s, a), key(a)) == Some(a),
    decreases s.len(),
{
    let r = registry_put(s, a);
    lemma_put_props(s, a);
    if s.len() == 0 {
        assert(!has_key(s, key(a)));
        assert(r[0] == a);
    } else if key(s[0]) == key(a) {
        assert(has_key(s, key(a))) by {
            assert(key(s[0]) == key(a));
        }
        assert(r[0] == a);
    } else if text_lt(key(a), key(s[0])) {
        assert(!has_key(s, key(a))) by {
            if has_key(s, key(a)) {
                let j = choose|j: int| 0 <= j < s.len() && key(#[trigger] s[j]) == key(a);
                if j > 0 {
                    lemma_lt_trans(key(a), key(s[0]), key(s[j]));
                }
                lemma_lt_irrefl(key(a));
            }
        }
        assert(r[0] == a);
    } else {
        let t = s.drop_first();
        assert(sorted_by_id(t)) by {
            assert forall|i: int, j: int| 0 <= i < j < t.len() implies text_lt(key(t[i]), key(t[j])) by {
                assert(t[i] == s[i + 1] && t[j] == s[j + 1]);
            }
        }
        lemma_put_replaces(t, a);
        let rt = registry_put(t, a);
        assert(r =~= seq![s[0]] + rt);
        assert(has_key(s, key(a)) == has_key(t, key(a))) by {
            if has_key(s, key(a)) {
                let j = choose|j: int| 0 <= j < s.len() && key(#[trigger] s[j]) == key(a);
                assert(j > 0);
                assert(t[j - 1] == s[j]);
            }
            if has_key(t, key(a)) {
                let j = choose|j: int| 0 <= j < t.len() && key(#[trigger] t[j]) == key(a);
                assert(s[j + 1] == t[j]);
            }
        }
        let k = choose|k: int| 0 <= k < rt.len() && key(#[trigger] rt[k]) == key(a);
        assert(rt[k] == a);
        assert(r[k + 1] == a);
        assert(key(r[k + 1]) == key(a));
        lemma_found_listed(r, k + 1);
    }
    if r[0] == a {
        lemma_found_listed(r, 0);
    }
}

fn put_entry(v: &mut Vec<AvailableAgent>, a: AvailableAgent)
    ensures
        final(v)@ == registry_put(old(v)@, a),
{
    let ghost s = v@;
    let k = chars_of(a.manifest.id.as_str());
    let mut i: usize = 0;
    proof {
        assert(s.skip(0) =~= s);
        assert(s.take(0) + registry_put(s.skip(0), a) =~= registry_put(s, a));
    }
    while i < v.len()
        invariant
            i <= v.len(),
            s == v@,
            s == old(v)@,
            k@ == key(a),
            registry_put(s, a) == s.take(i as int) + registry_put(s.skip(i as int), a),
        decreases v.len() - i,
    {
        proof {
            assert(s.skip(i as int).drop_first() =~= s.skip(i + 1));
            assert(s.skip(i as int)[0] == v@[i as int]);
        }
        let ki = chars_of(v[i].manifest.id.as_str());
        if eq(&ki, &k) {
            v.set(i, a);
            proof {
                assert(v@ =~= s.take(i as int) + (seq![a] + s.skip(i + 1)));
            }
            return;
        }
        if text_lt_exec(&k, &ki) {
            v.insert(i, a);
            proof {
                assert(v@ =~= s.take(i as int) + (seq![a] + s.skip(i as int)));
            }
            return;
        }
        proof {
            assert(s.take(i as int) + (seq![s.skip(i as int)[0]] + registry_put(s.skip(i + 1), a))
                =~= s.take(i + 1) + registry_put(s.skip(i + 1), a));
        }
        i = i + 1;
    }
    v.push(a);
    proof {
        assert(s.take(i as int) =~= s);
        assert(v@ =~= s + seq![a]);
    }
}

/// An entry with detection results put in.
pub open spec fn with_detection(a: AvailableAgent, d: Detection) -> AvailableAgent {
    AvailableAgent {
        installed: d.installed,
        resolved_path: d.resolved_path,
        version: d.version,
        detection_warning: d.warning,
        ..a
    }
}

/// Every known agent, by id, with detection results.
#[derive(Debug)]
pub struct AgentRegistry {
    agents: Vec<AvailableAgent>,
}

impl AgentRegistry {
    /// The entries, in id order.
    pub closed spec fn entries(&self) -> Seq<AvailableAgent> {
        self.agents@
    }

    #[verifier::type_invariant]
    spec fn wf(self) -> bool {
        sorted_by_id(self.agents@)
    }

    /// An empty registry.
    pub fn new() -> (r: AgentRegistry)
        ensures
            r.entries().len() == 0,
    {
        AgentRegistry { agents: Vec::new() }
    }

    /// The entries in id order: ids strictly ascending, so no id twice.
    pub fn list(&self) -> (r: Vec<&AvailableAgent>)
        ensures
            r@.len() == self.entries().len(),
            forall|i: int| 0 <= i < r@.len() ==> *r@[i] == self.entries()[i],
            forall|i: int, j: int|
                0 <= i < j < r@.len() ==> text_lt(key(*r@[i]), key(*r@[j])),
            forall|i: int|
                0 <= i < r@.len() ==> found(self.entries(), key(*r@[i])) == Some(*r@[i]),
    {
        proof {
            use_type_invariant(self);
        }
        let mut out: Vec<&AvailableAgent> = Vec::new();
        let mut i: usize = 0;
        while i < self.agents.len()
            invariant
                i <= self.agents.len(),
                out@.len() == i,
                forall|j: int| 0 <= j < i ==> *out@[j] == self.agents@[j],
            decreases self.agents.len() - i,
        {
            out.push(&self.agents[i]);
            i = i + 1;
        }
        proof {
            assert forall|k: int| 0 <= k < out@.len() implies found(self.entries(), key(*out@[k]))
                == Some(*out@[k]) by {
                lemma_found_listed(self.agents@, k);
            }
        }
        out
    }

    /// The entries whose binary was found, in id order.
    pub fn installed(&self) -> (r: Vec<&AvailableAgent>)
        ensures
            r@.map_values(|a: &AvailableAgent| *a) == installed_only(self.entries()),
    {
        let mut out: Vec<&AvailableAgent> = Vec::new();
        let mut i: usize = 0;
        proof {
            assert(out@.map_values(|a: &AvailableAgent| *a) =~= installed_only(
                self.agents@.take(0),
            ));
        }
        while i < self.agents.len()
            invariant
                i <= self.agents.len(),
                out@.map_values(|a: &AvailableAgent| *a) == installed_only(
                    self.agents@.take(i as int),
                ),
            decreases self.agents.len() - i,
        {
            let ghost before = out@;
            proof {
                assert(self.agents@.take(i + 1).drop_last() =~= self.agents@.take(i as int));
            }
            if self.agents[i].installed {
                out.push(&self.agents[i]);
                proof {
                    assert(out@.map_values(|a: &AvailableAgent| *a) =~= before.map_values(
                        |a: &AvailableAgent| *a,
                    ).push(self.agents@[i as int]));
                }
            }
            i = i + 1;
        }
        proof {
            assert(self.agents@.take(self.agents.len() as int) =~= self.agents@);
        }
        out
    }

    /// The entry of an agent.
    pub fn get(&self, id: &AgentId) -> (r: Option<&AvailableAgent>)
        ensures
            match r {
                Some(a) => self.entries().contains(*a) && key(*a) == id.0@ && forall|i: int|
                    0 <= i < self.entries().len() && key(#[trigger] self.entries()[i]) == id.0@
                        ==> self.entries()[i] == *a,
                None => forall|i: int|
                    0 <= i < self.entries().len() ==> key(self.entries()[i]) != id.0@,
            },
            found(self.entries(), id.0@) == match r {
                Some(a) => Some(*a),
                None => None::<AvailableAgent>,
            },
    {
        proof {
            use_type_invariant(self);
        }
        let k = chars_of(id.as_str());
        let mut i: usize = 0;
        while i < self.agents.len()
            invariant
                i <= self.agents.len(),
                k@ == id.0@,
                forall|j: int| 0 <= j < i ==> key(self.agents@[j]) != id.0@,
                sorted_by_id(self.agents@),
            decreases self.agents.len() - i,
        {
            if eq(&chars_of(self.agents[i].manifest.id.as_str()), &k) {
                proof {
                    assert(self.agents@.contains(self.agents@[i as int]));
                    lemma_found_listed(self.agents@, i as int);
                    assert forall|j: int|
                        0 <= j < self.agents@.len() && key(#[trigger] self.agents@[j]) == id.0@
                            implies self.agents@[j] == self.agents@[i as int] by {
                        if j > i {
                            assert(text_lt(key(self.agents@[i as int]), key(self.agents@[j])));
                            lemma_lt_irrefl(key(self.agents@[j]));
                        }
                    }
                }
                return Some(&self.agents[i]);
            }
            i = i + 1;
        }
        proof {
            if has_key(self.agents@, id.0@) {
                let j = choose|j: int| 0 <= j < self.agents@.len() && key(#[trigger] self.agents@[j]) == id.0@;
                assert(key(self.agents@[j]) != id.0@);
            }
        }
        None
    }

    /// Validates and installs manifests in order, replacing any entry
    /// with the same id; stops at the first invalid manifest.
    pub fn install(&mut self, manifests: Vec<AgentManifest>) -> (r: Result<(), AgentError>)
        ensures
            final(self).entries() == install_all(old(self).entries(), manifests@).0,
            match install_all(old(self).entries(), manifests@).1 {
                None => r is Ok,
                Some(msg) => r matches Err(AgentError::Invocation(m)) && m@ == msg,
            },
    {
        proof {
            use_type_invariant(&*self);
        }
        let mut ms = manifests;
        let mut v: Vec<AvailableAgent> = Vec::new();
        std::mem::swap(&mut v, &mut self.agents);
        let ghost start = v@;
        while ms.len() > 0
            invariant
                sorted_by_id(v@),
                self.agents@.len() == 0,
                start == old(self).entries(),
                install_all(start, manifests@) == install_all(v@, ms@),
            decreases ms.len(),
        {
            let ghost before = ms@;
            let m = ms.remove(0);
            proof {
                assert(ms@ =~= before.drop_first());
            }
            match m.validate() {
                Err(e) => {
                    std::mem::swap(&mut v, &mut self.agents);
                    return Err(e);
                },
                Ok(()) => {
                    let a = AvailableAgent {
                        manifest: m,
                        installed: false,
                        resolved_path: None,
                        version: None,
                        detection_warning: None,
                    };
                    proof {
                        lemma_put_props(v@, a);
                    }
                    put_entry(&mut v, a);
                },
            }
        }
        std::mem::swap(&mut v, &mut self.agents);
        Ok(())
    }

    /// Puts in the results of detecting each entry, in id order.
    pub fn reload_detection(&mut self, outcomes: Vec<Detection>)
        requires
            outcomes@.len() == old(self).entries().len(),
        ensures
            final(self).entries().len() == old(self).entries().len(),
            forall|i: int|
                0 <= i < old(self).entries().len() ==> #[trigger] final(self).entries()[i]
                    == with_detection(old(self).entries()[i], outcomes@[i]),
    {
        proof {
            use_type_invariant(&*self);
        }
        let mut rest: Vec<AvailableAgent> = Vec::new();
        std::mem::swap(&mut rest, &mut self.agents);
        let ghost orig = rest@;
        let mut outs = outcomes;
        let mut done: Vec<AvailableAgent> = Vec::new();
        while rest.len() > 0
            invariant
                orig.len() == outcomes@.len(),
                done.len() + rest.len() == orig.len(),
                outs@ == outcomes@.skip(done.len() as int),
                rest@ == orig.skip(done.len() as int),
                forall|j: int| 0 <= j < done.len() ==> #[trigger] done@[j] == with_detection(orig[j], outcomes@[j]),
                self.agents@.len() == 0,
            decreases rest.len(),
        {
            let ghost n = done.len();
            let a = rest.remove(0);
            let d = outs.remove(0);
            proof {
                assert(a == orig[n as int]);
                assert(d == outcomes@[n as int]);
                assert(rest@ =~= orig.skip(n + 1));
                assert(outs@ =~= outcomes@.skip(n + 1));
            }
            done.push(
                AvailableAgent {
                    manifest: a.manifest,
                    installed: d.installed,
                    resolved_path: d.resolved_path,
                    version: d.version,
                    detection_warning: d.warning,
                },
            );
        }
        proof {
            assert forall|i: int, j: int| 0 <= i < j < done@.len() implies text_lt(
                key(done@[i]),
                key(done@[j]),
            ) by {
                assert(key(done@[i]) == key(orig[i]));
                assert(key(done@[j]) == key(orig[j]));
            }
        }
        self.agents = done;
    }
}

} // verus!
