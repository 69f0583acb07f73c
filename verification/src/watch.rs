//! What a change on disk means. A changed path is read against the
//! layout (see `paths`): the entity file of a template or a task, the
//! directory of one that was removed, or the settings file. Anything else
//! means nothing.

use vstd::prelude::*;
use crate::ids::{uuid_parsed, TaskId, TemplateId};
use crate::openapi_editor::{split_all, split_scan};
use crate::paths::{relative_exec, relative_to};
use crate::text::{
    chars_of, contains, contains_exec, copy_string, eq, has_prefix, starts_with, string_of,
};

verus! {

/// A change to what the store holds, whoever made it.
#[derive(Clone, Copy, Debug, PartialEq, Eq, Hash, Structural)]
pub enum StoreEvent {
    TemplateChanged(TemplateId),
    TemplateRemoved(TemplateId),
    TaskChanged(TaskId),
    TaskRemoved(TaskId),
    SettingsChanged,
}

/// A path component that `Path::components` yields as a named part (or,
/// with `parents`, as a parent part too): not empty and not `.`, and not
/// `..` unless `parents`.
pub open spec fn is_kept(part: Seq<char>, parents: bool) -> bool {
    part.len() > 0 && part != "."@ && (parents || part != ".."@)
}

/// The kept components among `parts`, in order.
pub open spec fn kept_parts(parts: Seq<Seq<char>>, parents: bool) -> Seq<Seq<char>>
    decreases parts.len(),
{
    if parts.len() == 0 {
        Seq::empty()
    } else {
        let r = kept_parts(parts.drop_last(), parents);
        if is_kept(parts.last(), parents) {
            r.push(parts.last())
        } else {
            r
        }
    }
}

/// The naming components of a path (`Path::components`, keeping the
/// normal ones).
pub open spec fn components(p: Seq<char>) -> Seq<Seq<char>> {
    kept_parts(split_all(p, '/'), false)
}

/// The last component of a path when it names something
/// (`Path::file_name`).
pub open spec fn file_name(p: Seq<char>) -> Option<Seq<char>> {
    let ps = kept_parts(split_all(p, '/'), true);
    if ps.len() > 0 && ps.last() != ".."@ {
        Some(ps.last())
    } else {
        None
    }
}

fn is_kept_exec(part: &Vec<char>, parents: bool) -> (r: bool)
    ensures
        r == is_kept(part@, parents),
{
    proof {
        reveal_strlit(".");
        reveal_strlit("..");
    }
    part.len() > 0 && !eq(part, &chars_of(".")) && (parents || !eq(part, &chars_of("..")))
}

fn kept_parts_exec(p: &Vec<char>, parents: bool) -> (r: Vec<String>)
    ensures
        r@.map_values(|s: String| s@) == kept_parts(split_all(p@, '/'), parents),
{
    let mut out: Vec<String> = Vec::new();
    let mut cur: Vec<char> = Vec::new();
    let mut i: usize = 0;
    while i < p.len()
        invariant
            i <= p.len(),
            out@.map_values(|s: String| s@) == kept_parts(
                split_scan(p@.take(i as int), '/').0,
                parents,
            ),
            cur@ == split_scan(p@.take(i as int), '/').1,
        decreases p.len() - i,
    {
        proof {
            assert(p@.take(i + 1).drop_last() =~= p@.take(i as int));
            assert(p@.take(i + 1).last() == p@[i as int]);
        }
        proof {
            let sc = split_scan(p@.take(i as int), '/');
            assert(sc.0.push(sc.1).drop_last() =~= sc.0);
        }
        if p[i] == '/' {
            if is_kept_exec(&cur, parents) {
                let ghost before = out@.map_values(|s: String| s@);
                let ghost cv = cur@;
                out.push(string_of(&cur));
                proof {
                    assert(out@.map_values(|s: String| s@) =~= before.push(cv));
                }
            }
            cur = Vec::new();
            proof {
                assert(cur@ =~= Seq::<char>::empty());
            }
        } else {
            cur.push(p[i]);
        }
        i = i + 1;
    }
    proof {
        assert(p@.take(p@.len() as int) =~= p@);
    }
    if is_kept_exec(&cur, parents) {
        let ghost before = out@.map_values(|s: String| s@);
        let ghost cv = cur@;
        out.push(string_of(&cur));
        proof {
            assert(out@.map_values(|s: String| s@) =~= before.push(cv));
        }
    }
    proof {
        let sc = split_scan(p@, '/');
        assert(split_all(p@, '/').drop_last() =~= sc.0);
        assert(split_all(p@, '/').last() == sc.1);
    }
    out
}

/// The naming components of a path.
pub fn components_exec(p: &Vec<char>) -> (r: Vec<String>)
    ensures
        r@.map_values(|s: String| s@) == components(p@),
{
    kept_parts_exec(p, false)
}

/// The last component of a path when it names something.
pub fn file_name_exec(p: &Vec<char>) -> (r: Option<String>)
    ensures
        r matches Some(n) ==> file_name(p@) == Some(n@),
        r is None ==> file_name(p@) is None,
{
    proof {
        reveal_strlit("..");
    }
    let ps = kept_parts_exec(p, true);
    let ghost pv = ps@.map_values(|s: String| s@);
    assert(pv.len() == ps@.len());
    if ps.len() > 0 {
        let last = &ps[ps.len() - 1];
        assert(pv.last() == last@);
        if !eq(&chars_of(last.as_str()), &chars_of("..")) {
            return Some(copy_string(last));
        }
    }
    None
}

/// What the components of a path under the state root mean; `removed`
/// tells whether the path is gone from disk.
pub open spec fn event_of(parts: Seq<Seq<char>>, removed: bool) -> Option<StoreEvent> {
    if parts.len() == 3 && parts[0] == "templates"@ && parts[2] == "template.toml"@ {
        match uuid_parsed(parts[1]) {
            Some(v) => Some(
                if removed {
                    StoreEvent::TemplateRemoved(TemplateId(v))
                } else {
                    StoreEvent::TemplateChanged(TemplateId(v))
                },
            ),
            None => None,
        }
    } else if parts.len() == 2 && parts[0] == "templates"@ && removed {
        match uuid_parsed(parts[1]) {
            Some(v) => Some(StoreEvent::TemplateRemoved(TemplateId(v))),
            None => None,
        }
    } else if parts.len() == 3 && parts[0] == "tasks"@ && parts[2] == "task.toml"@ {
        match uuid_parsed(parts[1]) {
            Some(v) => Some(
                if removed {
                    StoreEvent::TaskRemoved(TaskId(v))
                } else {
                    StoreEvent::TaskChanged(TaskId(v))
                },
            ),
            None => None,
        }
    } else if parts.len() == 2 && parts[0] == "tasks"@ && removed {
        match uuid_parsed(parts[1]) {
            Some(v) => Some(StoreEvent::TaskRemoved(TaskId(v))),
            None => None,
        }
    } else {
        None
    }
}

/// What a path under the state root names: `templates/<id>/template.toml`
/// is that template, changed or removed as the file is; `tasks/<id>/task.toml`
/// likewise that task; a removed `templates/<id>` or `tasks/<id>` directory
/// is that template or task removed, while a directory that is still
/// there means nothing by itself.
pub proof fn lemma_store_paths(id: Seq<char>, v: u128, removed: bool)
    requires
        uuid_parsed(id) == Some(v),
    ensures
        event_of(seq!["templates"@, id, "template.toml"@], removed) == Some(
            if removed {
                StoreEvent::TemplateRemoved(TemplateId(v))
            } else {
                StoreEvent::TemplateChanged(TemplateId(v))
            },
        ),
        event_of(seq!["tasks"@, id, "task.toml"@], removed) == Some(
            if removed {
                StoreEvent::TaskRemoved(TaskId(v))
            } else {
                StoreEvent::TaskChanged(TaskId(v))
            },
        ),
        event_of(seq!["templates"@, id], true) == Some(StoreEvent::TemplateRemoved(TemplateId(v))),
        event_of(seq!["tasks"@, id], true) == Some(StoreEvent::TaskRemoved(TaskId(v))),
        event_of(seq!["templates"@, id], false) is None,
        event_of(seq!["tasks"@, id], false) is None,
{
    reveal_strlit("templates");
    reveal_strlit("tasks");
    reveal_strlit("template.toml");
    reveal_strlit("task.toml");
    assert("tasks"@ != "templates"@) by {
        assert("tasks"@.len() != "templates"@.len());
    }
    assert("task.toml"@ != "template.toml"@) by {
        assert("task.toml"@.len() != "template.toml"@.len());
    }
}

/// What a change to `path` under the state root means: the path is read
/// relative to the root (or as it is, when outside it).
pub open spec fn classified(state_root: Seq<char>, path: Seq<char>, removed: bool) -> Option<
    StoreEvent,
> {
    event_of(components(relative_to(state_root, path)), removed)
}

fn is_exec(part: &String, word: &str) -> (r: bool)
    ensures
        r == (part@ == word@),
{
    eq(&chars_of(part.as_str()), &chars_of(word))
}

/// What a change to `path` under the state root means.
pub fn classify(state_root: &str, path: &str, removed: bool) -> (r: Option<StoreEvent>)
    ensures
        r == classified(state_root@, path@, removed),
{
    proof {
        reveal_strlit("templates");
        reveal_strlit("template.toml");
        reveal_strlit("tasks");
        reveal_strlit("task.toml");
    }
    let rel = relative_exec(&chars_of(state_root), &chars_of(path));
    let parts = components_exec(&rel);
    let ghost pv = parts@.map_values(|s: String| s@);
    assert(parts@.len() == pv.len());
    if parts.len() == 3 && is_exec(&parts[0], "templates") && is_exec(&parts[2], "template.toml") {
        assert(pv[0] == parts@[0]@ && pv[1] == parts@[1]@ && pv[2] == parts@[2]@);
        return match TemplateId::parse(parts[1].as_str()) {
            Ok(id) => Some(
                if removed {
                    StoreEvent::TemplateRemoved(id)
                } else {
                    StoreEvent::TemplateChanged(id)
                },
            ),
            Err(_) => None,
        };
    }
    if parts.len() == 2 && is_exec(&parts[0], "templates") && removed {
        assert(pv[0] == parts@[0]@ && pv[1] == parts@[1]@);
        return match TemplateId::parse(parts[1].as_str()) {
            Ok(id) => Some(StoreEvent::TemplateRemoved(id)),
            Err(_) => None,
        };
    }
    if parts.len() == 3 && is_exec(&parts[0], "tasks") && is_exec(&parts[2], "task.toml") {
        assert(pv[0] == parts@[0]@ && pv[1] == parts@[1]@ && pv[2] == parts@[2]@);
        return match TaskId::parse(parts[1].as_str()) {
            Ok(id) => Some(
                if removed {
                    StoreEvent::TaskRemoved(id)
                } else {
                    StoreEvent::TaskChanged(id)
                },
            ),
            Err(_) => None,
        };
    }
    if parts.len() == 2 && is_exec(&parts[0], "tasks") && removed {
        assert(pv[0] == parts@[0]@ && pv[1] == parts@[1]@);
        return match TaskId::parse(parts[1].as_str()) {
            Ok(id) => Some(StoreEvent::TaskRemoved(id)),
            Err(_) => None,
        };
    }
    proof {
        if parts@.len() >= 1 {
            assert(pv[0] == parts@[0]@);
        }
        if parts@.len() >= 3 {
            assert(pv[2] == parts@[2]@);
        }
    }
    None
}

/// `rel`, read as a path, is exactly `settings.toml`: relative, with
/// that one component (a `.` names nothing, a `..` counts).
pub open spec fn is_settings_file(rel: Seq<char>) -> bool {
    !has_prefix(rel, "/"@) && kept_parts(split_all(rel, '/'), true) == seq!["settings.toml"@]
}

/// What a change to `path` under the config root means: only the
/// settings file counts.
pub open spec fn config_classified(config_root: Seq<char>, path: Seq<char>) -> Option<StoreEvent> {
    if is_settings_file(relative_to(config_root, path)) {
        Some(StoreEvent::SettingsChanged)
    } else {
        None
    }
}

/// What a change to `path` under the config root means.
pub fn classify_config(config_root: &str, path: &str) -> (r: Option<StoreEvent>)
    ensures
        r == config_classified(config_root@, path@),
{
    proof {
        reveal_strlit("settings.toml");
    }
    let rel = relative_exec(&chars_of(config_root), &chars_of(path));
    let absolute = starts_with(&rel, &chars_of("/"));
    let parts = kept_parts_exec(&rel, true);
    let ghost pv = parts@.map_values(|s: String| s@);
    assert(pv.len() == parts@.len());
    if !absolute && parts.len() == 1 && is_exec(&parts[0], "settings.toml") {
        assert(pv =~= seq!["settings.toml"@]);
        Some(StoreEvent::SettingsChanged)
    } else {
        proof {
            if pv == seq!["settings.toml"@] {
                assert(pv[0] == parts@[0]@);
            }
        }
        None
    }
}

/// A sibling file that an atomic write leaves for a moment: its name
/// holds `.tmp.`.
pub open spec fn is_tmp_sibling(path: Seq<char>) -> bool {
    match file_name(path) {
        Some(n) => contains(n, ".tmp."@),
        None => false,
    }
}

/// Whether `path` is such a sibling file.
pub fn tmp_sibling(path: &str) -> (r: bool)
    ensures
        r == is_tmp_sibling(path@),
{
    match file_name_exec(&chars_of(path)) {
        Some(n) => contains_exec(&chars_of(n.as_str()), &chars_of(".tmp.")),
        None => false,
    }
}

/// What a change to `path` means for the store: nothing for a sibling
/// file of an atomic write; else what it means under the state root, or,
/// for a path that is still there, under the config root.
pub open spec fn routed(state_root: Seq<char>, config_root: Seq<char>, path: Seq<char>, removed: bool) -> Option<StoreEvent> {
    if is_tmp_sibling(path) {
        None
    } else {
        match classified(state_root, path, removed) {
            Some(e) => Some(e),
            None => if removed {
                None
            } else {
                config_classified(config_root, path)
            },
        }
    }
}

/// What a change to `path` means for the store.
pub fn route(state_root: &str, config_root: &str, path: &str, removed: bool) -> (r: Option<
    StoreEvent,
>)
    ensures
        r == routed(state_root@, config_root@, path@, removed),
{
    if tmp_sibling(path) {
        return None;
    }
    match classify(state_root, path, removed) {
        Some(e) => Some(e),
        None => if removed {
            None
        } else {
            classify_config(config_root, path)
        },
    }
}

/// How long, in milliseconds, a repeat of the same event is held back.
pub const DEBOUNCE_WINDOW_MS: u64 = 100;

/// Whether an event last let through at `prev` (if ever) goes through at
/// `now`: a first one always does, a repeat only once the window has
/// passed since the last one let through.
pub open spec fn lets_through(prev: Option<u64>, now: u64) -> bool {
    match prev {
        Some(p) => now >= p + DEBOUNCE_WINDOW_MS,
        None => true,
    }
}

/// The time `e` was last let through, in `entries` (the first entry for
/// it counts).
pub open spec fn last_of(entries: Seq<(StoreEvent, u64)>, e: StoreEvent) -> Option<u64>
    decreases entries.len(),
{
    if entries.len() == 0 {
        None
    } else if entries[0].0 == e {
        Some(entries[0].1)
    } else {
        last_of(entries.drop_first(), e)
    }
}

/// Holds back repeats of an event that come within the window.
#[derive(Debug)]
pub struct Debouncer {
    last: Vec<(StoreEvent, u64)>,
}

impl Debouncer {
    /// When `e` was last let through, if ever.
    pub closed spec fn last_emitted(&self, e: StoreEvent) -> Option<u64> {
        last_of(self.last@, e)
    }

    /// Nothing let through yet.
    pub fn new() -> (r: Debouncer)
        ensures
            forall|e: StoreEvent| r.last_emitted(e) is None,
    {
        Debouncer { last: Vec::new() }
    }

    /// Whether `evt`, seen at `now_ms`, goes through; when it does, `now_ms`
    /// becomes the time it was last let through. Other events are
    /// untouched.
    pub fn allow(&mut self, evt: StoreEvent, now_ms: u64) -> (r: bool)
        ensures
            r == lets_through(old(self).last_emitted(evt), now_ms),
            r ==> final(self).last_emitted(evt) == Some(now_ms),
            !r ==> final(self).last_emitted(evt) == old(self).last_emitted(evt),
            forall|e: StoreEvent|
                e != evt ==> #[trigger] final(self).last_emitted(e) == old(self).last_emitted(e),
    {
        let mut i: usize = 0;
        proof {
            assert(self.last@.subrange(0, self.last@.len() as int) =~= self.last@);
        }
        while i < self.last.len()
            invariant
                i <= self.last.len(),
                self.last@ == old(self).last@,
                last_of(self.last@, evt) == last_of(
                    self.last@.subrange(i as int, self.last@.len() as int),
                    evt,
                ),
                forall|j: int| 0 <= j < i ==> (#[trigger] self.last@[j]).0 != evt,
            decreases self.last.len() - i,
        {
            proof {
                assert(self.last@.subrange(i as int, self.last@.len() as int).drop_first()
                    =~= self.last@.subrange(i + 1, self.last@.len() as int));
            }
            if self.last[i].0 == evt {
                let prev = self.last[i].1;
                let fresh = now_ms >= prev && now_ms - prev >= DEBOUNCE_WINDOW_MS;
                proof {
                    lemma_last_of_set(self.last@, i as int, evt, now_ms);
                }
                if fresh {
                    self.last.set(i, (evt, now_ms));
                }
                return fresh;
            }
            i = i + 1;
        }
        let ghost before = self.last@;
        self.last.push((evt, now_ms));
        proof {
            lemma_last_of_push(before, evt, now_ms);
        }
        true
    }
}

proof fn lemma_last_of_set(s: Seq<(StoreEvent, u64)>, i: int, evt: StoreEvent, t: u64)
    requires
        0 <= i < s.len(),
        s[i].0 == evt,
        forall|j: int| 0 <= j < i ==> (#[trigger] s[j]).0 != evt,
    ensures
        last_of(s.update(i, (evt, t)), evt) == Some(t),
        last_of(s, evt) == Some(s[i].1),
        forall|e: StoreEvent| e != evt ==> #[trigger] last_of(s.update(i, (evt, t)), e) == last_of(s, e),
    decreases i,
{
    if i > 0 {
        let u = s.update(i, (evt, t));
        assert(u.drop_first() =~= s.drop_first().update(i - 1, (evt, t)));
        lemma_last_of_set(s.drop_first(), i - 1, evt, t);
        assert forall|e: StoreEvent| e != evt implies #[trigger] last_of(u, e) == last_of(s, e) by {
            assert(u[0] == s[0]);
            if s[0].0 != e {
                assert(last_of(u, e) == last_of(u.drop_first(), e));
                assert(last_of(s.drop_first().update(i - 1, (evt, t)), e) == last_of(
                    s.drop_first(),
                    e,
                ));
            }
        }
    } else {
        assert(s.update(0, (evt, t)).drop_first() =~= s.drop_first());
    }
}

proof fn lemma_last_of_push(s: Seq<(StoreEvent, u64)>, evt: StoreEvent, t: u64)
    requires
        forall|j: int| 0 <= j < s.len() ==> (#[trigger] s[j]).0 != evt,
    ensures
        last_of(s, evt) is None,
        last_of(s.push((evt, t)), evt) == Some(t),
        forall|e: StoreEvent| e != evt ==> #[trigger] last_of(s.push((evt, t)), e) == last_of(s, e),
    decreases s.len(),
{
    let u = s.push((evt, t));
    if s.len() > 0 {
        assert(u.drop_first() =~= s.drop_first().push((evt, t)));
        lemma_last_of_push(s.drop_first(), evt, t);
        assert forall|e: StoreEvent| e != evt implies #[trigger] last_of(u, e) == last_of(s, e) by {
            assert(u[0] == s[0]);
            if s[0].0 != e {
                assert(last_of(s.drop_first().push((evt, t)), e) == last_of(s.drop_first(), e));
            }
        }
    } else {
        assert(u.drop_first() =~= s);
        assert forall|e: StoreEvent| e != evt implies #[trigger] last_of(u, e) == last_of(s, e) by {
            assert(last_of(u, e) == last_of(u.drop_first(), e));
        }
    }
}

/// What kind of change a file-system notice reports.
#[derive(Clone, Copy, Debug, PartialEq, Eq, Structural)]
pub enum ChangeKind {
    Created,
    Modified,
    Removed,
    Other,
}

/// What each of `paths` means for the store, in order.
pub open spec fn routed_all(state_root: Seq<char>, config_root: Seq<char>, paths: Seq<String>, removed: bool) -> Seq<
    Option<StoreEvent>,
> {
    Seq::new(paths.len(), |i: int| routed(state_root, config_root, paths[i]@, removed))
}

/// `e` is among `cs`.
pub open spec fn seen(cs: Seq<Option<StoreEvent>>, e: StoreEvent) -> bool {
    exists|j: int| 0 <= j < cs.len() && cs[j] == Some(e)
}

/// The events among `cs` that a debouncer in the state of `d` lets
/// through when they all come at `now`, in order: the first of each
/// event, where the window allows it; a repeat within one notice never
/// goes through.
pub open spec fn let_through(d: Debouncer, cs: Seq<Option<StoreEvent>>, now: u64) -> Seq<StoreEvent>
    decreases cs.len(),
{
    if cs.len() == 0 {
        Seq::empty()
    } else {
        let r = let_through(d, cs.drop_last(), now);
        match cs.last() {
            Some(e) => if !seen(cs.drop_last(), e) && lets_through(d.last_emitted(e), now) {
                r.push(e)
            } else {
                r
            },
            None => r,
        }
    }
}

/// When `e` was last let through after `cs` came at `now` to a debouncer
/// in the state of `d`.
pub open spec fn remembered(d: Debouncer, cs: Seq<Option<StoreEvent>>, now: u64, e: StoreEvent) -> Option<u64> {
    if seen(cs, e) && lets_through(d.last_emitted(e), now) {
        Some(now)
    } else {
        d.last_emitted(e)
    }
}

/// The events a notice of `kind` about `paths`, seen at `now_ms`, stands
/// for: none for a kind other than a creation, a change or a removal;
/// else each path read by `route` (as removed for a removal), sibling
/// files of atomic writes and unknown paths left out, and repeats held
/// back by `debouncer`.
pub fn handle_event(
    state_root: &str,
    config_root: &str,
    debouncer: &mut Debouncer,
    kind: ChangeKind,
    paths: &Vec<String>,
    now_ms: u64,
) -> (r: Vec<StoreEvent>)
    ensures
        kind is Other ==> r@ == Seq::<StoreEvent>::empty() && forall|e: StoreEvent|
            #[trigger] final(debouncer).last_emitted(e) == old(debouncer).last_emitted(e),
        !(kind is Other) ==> r@ == let_through(
            *old(debouncer),
            routed_all(state_root@, config_root@, paths@, kind is Removed),
            now_ms,
        ),
        !(kind is Other) ==> forall|e: StoreEvent|
            #[trigger] final(debouncer).last_emitted(e) == remembered(
                *old(debouncer),
                routed_all(state_root@, config_root@, paths@, kind is Removed),
                now_ms,
                e,
            ),
{
    let mut out: Vec<StoreEvent> = Vec::new();
    if kind == ChangeKind::Other {
        return out;
    }
    let removed = kind == ChangeKind::Removed;
    let ghost d0 = *debouncer;
    let ghost cs = routed_all(state_root@, config_root@, paths@, removed);
    let mut i: usize = 0;
    proof {
        assert(cs.take(0) =~= Seq::<Option<StoreEvent>>::empty());
    }
    while i < paths.len()
        invariant
            i <= paths.len(),
            cs == routed_all(state_root@, config_root@, paths@, removed),
            cs.len() == paths@.len(),
            out@ == let_through(d0, cs.take(i as int), now_ms),
            forall|e: StoreEvent|
                #[trigger] debouncer.last_emitted(e) == remembered(d0, cs.take(i as int), now_ms, e),
        decreases paths.len() - i,
    {
        let c = route(state_root, config_root, paths[i].as_str(), removed);
        let ghost pre = cs.take(i as int);
        proof {
            assert(cs.take(i + 1) =~= pre.push(c));
            assert(cs.take(i + 1).drop_last() =~= pre);
            assert forall|e: StoreEvent| #[trigger] seen(pre.push(c), e) == (seen(pre, e) || c == Some(e)) by {
                if c == Some(e) {
                    assert(pre.push(c)[pre.len() as int] == Some(e));
                }
                if seen(pre, e) {
                    let j = choose|j: int| 0 <= j < pre.len() && pre[j] == Some(e);
                    assert(pre.push(c)[j] == Some(e));
                }
                if seen(pre.push(c), e) {
                    let j = choose|j: int| 0 <= j < pre.push(c).len() && pre.push(c)[j] == Some(e);
                    if j < pre.len() {
                        assert(pre[j] == Some(e));
                    }
                }
            }
        }
        match c {
            Some(e) => {
                let through = debouncer.allow(e, now_ms);
                if through {
                    out.push(e);
                }
            },
            None => {},
        }
        i = i + 1;
    }
    proof {
        assert(cs.take(paths@.len() as int) =~= cs);
    }
    out
}

/// A repeat of an event let through at `t` is held back at any time
/// before the window has passed, and let through once it has.
pub proof fn lemma_repeat_within_window(t: u64, later: u64)
    ensures
        later < t + DEBOUNCE_WINDOW_MS ==> !lets_through(Some(t), later),
        later >= t + DEBOUNCE_WINDOW_MS ==> lets_through(Some(t), later),
{
}

} // verus!
