//! The on-disk layout: where settings, templates, tasks, logs and
//! staging files live under the config and state roots.
//!
//! ```text
//! config_root/settings.toml
//! state_root/templates/<template_id>/template.toml
//! state_root/tasks/<task_id>/{task.toml, template.snapshot.toml, prompt.md}
//! state_root/logs/
//! state_root/tmp/
//! ```

use vstd::prelude::*;
use crate::text::{
    append, chars_of, copy_chars, eq, has_prefix, slice, starts_with, string_of, trim_end_ch,
    trim_start_ch, v_trim_end_ch, v_trim_start_ch, lead_ch, trail_ch,
};

verus! {

/// `base` joined with `part` as `PathBuf::join` does on Unix: an absolute
/// `part` replaces `base`; otherwise a `/` goes between them unless
/// `base` is empty or already ends with one.
pub open spec fn path_join(base: Seq<char>, part: Seq<char>) -> Seq<char> {
    if part.len() > 0 && part[0] == '/' {
        part
    } else if base.len() == 0 || base.last() == '/' {
        base + part
    } else {
        base + seq!['/'] + part
    }
}

/// Joins two paths.
pub fn join(base: &str, part: &str) -> (r: String)
    ensures
        r@ == path_join(base@, part@),
{
    let b = chars_of(base);
    let p = chars_of(part);
    if p.len() > 0 && p[0] == '/' {
        return part.to_string();
    }
    let mut v = b;
    if v.len() > 0 && v[v.len() - 1] != '/' {
        v.push('/');
    }
    append(&mut v, &p);
    string_of(&v)
}

/// `p` written relative to `root` when it lies under it
/// (`Path::strip_prefix`), else as it is.
pub open spec fn relative_to(root: Seq<char>, p: Seq<char>) -> Seq<char> {
    let r = trim_end_ch(root, '/');
    if p.len() > r.len() && has_prefix(p, r) && p[r.len() as int] == '/' {
        trim_start_ch(p.subrange(r.len() as int, p.len() as int), '/')
    } else if p == r {
        Seq::empty()
    } else {
        p
    }
}

/// Joining a relative part onto a root and reading the result relative
/// to that root gives the part back; an absolute part replaces the root.
pub proof fn lemma_join_then_relative(root: Seq<char>, part: Seq<char>)
    requires
        root.len() > 0,
        root.last() != '/',
        part.len() > 0,
    ensures
        part[0] != '/' ==> relative_to(root, path_join(root, part)) == part,
        part[0] == '/' ==> path_join(root, part) == part,
{
    if part[0] != '/' {
        let p = root + seq!['/'] + part;
        assert(path_join(root, part) == p);
        assert(trail_ch(root, '/') == 0);
        assert(trim_end_ch(root, '/') =~= root);
        assert(p.take(root.len() as int) =~= root);
        let q = p.subrange(root.len() as int, p.len() as int);
        assert(q =~= seq!['/'] + part);
        assert(q.drop_first() =~= part);
        assert(lead_ch(part, '/') == 0);
        assert(lead_ch(q, '/') == 1);
        assert(trim_start_ch(q, '/') =~= part);
    }
}

pub fn relative_exec(root: &Vec<char>, p: &Vec<char>) -> (r: Vec<char>)
    ensures
        r@ == relative_to(root@, p@),
{
    let r = v_trim_end_ch(root, '/');
    if p.len() > r.len() && starts_with(p, &r) && p[r.len()] == '/' {
        v_trim_start_ch(&slice(p, r.len(), p.len()), '/')
    } else if eq(p, &r) {
        Vec::new()
    } else {
        copy_chars(p)
    }
}

/// The roots of the layout.
#[derive(Clone, Debug)]
pub struct Paths {
    config_root: String,
    state_root: String,
}

impl Paths {
    pub closed spec fn config(&self) -> Seq<char> {
        self.config_root@
    }

    pub closed spec fn state(&self) -> Seq<char> {
        self.state_root@
    }

    /// Explicit roots.
    pub fn with_roots(config_root: &str, state_root: &str) -> (r: Paths)
        ensures
            r.config() == config_root@,
            r.state() == state_root@,
    {
        Paths { config_root: config_root.to_string(), state_root: state_root.to_string() }
    }

    /// The roots from the environment's overrides and the platform's
    /// directories (`None` where there is no home): both overrides win
    /// outright; otherwise each missing one comes from the platform, and
    /// with no home directory there are no roots.
    pub fn from_choices(
        config_env: Option<String>,
        state_env: Option<String>,
        platform: Option<(String, String)>,
    ) -> (r: Option<Paths>)
        ensures
            match (config_env, state_env) {
                (Some(c), Some(s)) => r matches Some(p) && p.config() == c@ && p.state() == s@,
                _ => match platform {
                    None => r is None,
                    Some((pc, ps)) => r matches Some(p) && p.config() == match config_env {
                        Some(c) => c@,
                        None => pc@,
                    } && p.state() == match state_env {
                        Some(s) => s@,
                        None => ps@,
                    },
                },
            },
    {
        match (config_env, state_env) {
            (Some(c), Some(s)) => Some(Paths { config_root: c, state_root: s }),
            (c, s) => match platform {
                None => None,
                Some((pc, ps)) => Some(
                    Paths {
                        config_root: match c {
                            Some(x) => x,
                            None => pc,
                        },
                        state_root: match s {
                            Some(x) => x,
                            None => ps,
                        },
                    },
                ),
            },
        }
    }

    pub fn config_root(&self) -> (r: &str)
        ensures
            r@ == self.config(),
    {
        self.config_root.as_str()
    }

    pub fn state_root(&self) -> (r: &str)
        ensures
            r@ == self.state(),
    {
        self.state_root.as_str()
    }

    pub fn settings_file(&self) -> (r: String)
        ensures
            r@ == path_join(self.config(), "settings.toml"@),
    {
        join(self.config_root.as_str(), "settings.toml")
    }

    pub fn templates_dir(&self) -> (r: String)
        ensures
            r@ == path_join(self.state(), "templates"@),
    {
        join(self.state_root.as_str(), "templates")
    }

    pub fn template_dir(&self, template_id: &str) -> (r: String)
        ensures
            r@ == path_join(path_join(self.state(), "templates"@), template_id@),
    {
        join(self.templates_dir().as_str(), template_id)
    }

    pub fn template_file(&self, template_id: &str) -> (r: String)
        ensures
            r@ == path_join(
                path_join(path_join(self.state(), "templates"@), template_id@),
                "template.toml"@,
            ),
    {
        join(self.template_dir(template_id).as_str(), "template.toml")
    }

    pub fn tasks_root(&self) -> (r: String)
        ensures
            r@ == path_join(self.state(), "tasks"@),
    {
        join(self.state_root.as_str(), "tasks")
    }

    pub fn task_dir(&self, task_id: &str) -> (r: String)
        ensures
            r@ == path_join(path_join(self.state(), "tasks"@), task_id@),
    {
        join(self.tasks_root().as_str(), task_id)
    }

    pub fn task_file(&self, task_id: &str) -> (r: String)
        ensures
            r@ == path_join(path_join(path_join(self.state(), "tasks"@), task_id@), "task.toml"@),
    {
        join(self.task_dir(task_id).as_str(), "task.toml")
    }

    pub fn task_template_snapshot(&self, task_id: &str) -> (r: String)
        ensures
            r@ == path_join(
                path_join(path_join(self.state(), "tasks"@), task_id@),
                "template.snapshot.toml"@,
            ),
    {
        join(self.task_dir(task_id).as_str(), "template.snapshot.toml")
    }

    pub fn task_prompt(&self, task_id: &str) -> (r: String)
        ensures
            r@ == path_join(path_join(path_join(self.state(), "tasks"@), task_id@), "prompt.md"@),
    {
        join(self.task_dir(task_id).as_str(), "prompt.md")
    }

    pub fn tmp_dir(&self) -> (r: String)
        ensures
            r@ == path_join(self.state(), "tmp"@),
    {
        join(self.state_root.as_str(), "tmp")
    }

    pub fn logs_dir(&self) -> (r: String)
        ensures
            r@ == path_join(self.state(), "logs"@),
    {
        join(self.state_root.as_str(), "logs")
    }
}

} // verus!
